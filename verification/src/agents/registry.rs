//! The agents that are configured.
//!
//! Four agents are built in and always there. An entry of the configuration overlays
//! the built-in agent of its name, or names one by its type; any other entry is an
//! agent of templates alone. Whether an agent can be run is found out once, when the
//! registry is built.
use crate::agents::agent;
use crate::agents::agent::{
    AgentCapabilities, AgentContext, AgentDescriptor, CommandSpec, CommandView, ContextView,
    DescriptorView, Invocation, LaunchError, LaunchErrorView, SessionIdProbe,
};
use crate::agents::claude;
use crate::agents::claude::ClaudeAgent;
use crate::agents::configurable;
use crate::agents::configurable::{ConfigurableAgent, TemplateAgent};
use crate::agents::opencode;
use crate::agents::opencode::server;
use crate::agents::opencode::server::Endpoint;
use crate::agents::opencode::OpenCodeAgent;
use crate::agents::pi;
use crate::agents::pi::PiAgent;
use crate::agents::product;
use crate::agents::product::command_name;
use crate::agents::vibe;
use crate::agents::vibe::VibeAgent;
use crate::config;
use crate::config::{AgentConfig, ConfigView, FavettoConfig};
use crate::model;
use crate::model::{copy_text, AwaitingInputReason, ReasonView};
use crate::paths;
use crate::paths::{is_absolute, join, parts};
use crate::table;
use crate::table::Table;
use crate::text;
use crate::text::{push_text, str_eq, trim};
use vstd::prelude::*;

verus! {

/// What an agent is built as.
#[derive(Debug, Clone, Copy, PartialEq, Eq, Structural)]
pub enum AgentKind {
    OpenCode,
    Claude,
    Pi,
    Vibe,
    Configurable,
}

/// The names of the built-in agents.
pub open spec fn built_in(name: Seq<char>) -> Option<AgentKind> {
    if name == "opencode"@ {
        Some(AgentKind::OpenCode)
    } else if name == product::command() {
        Some(AgentKind::Claude)
    } else if name == "pi"@ {
        Some(AgentKind::Pi)
    } else if name == "vibe"@ {
        Some(AgentKind::Vibe)
    } else {
        None
    }
}

/// What the entry `name` is built as; nothing where its type is unknown.
pub open spec fn kind_for(name: Seq<char>, agent_type: Option<Seq<char>>) -> Option<AgentKind> {
    match agent_type {
        Some(kind) => if kind == "configurable"@ {
            Some(AgentKind::Configurable)
        } else {
            built_in(kind)
        },
        None => match built_in(name) {
            Some(kind) => Some(kind),
            None => Some(AgentKind::Configurable),
        },
    }
}

fn find_built_in(name: &str) -> (kind: Option<AgentKind>)
    ensures
        kind == built_in(name@),
{
    if str_eq(name, "opencode") {
        Some(AgentKind::OpenCode)
    } else if str_eq(name, command_name().as_str()) {
        Some(AgentKind::Claude)
    } else if str_eq(name, "pi") {
        Some(AgentKind::Pi)
    } else if str_eq(name, "vibe") {
        Some(AgentKind::Vibe)
    } else {
        None
    }
}

/// What the entry `name` is built as.
pub fn find_kind(name: &str, agent_type: &Option<String>) -> (kind: Option<AgentKind>)
    ensures
        kind == kind_for(name@, model::opt_text(*agent_type)),
{
    match agent_type {
        Some(kind) => {
            if str_eq(kind.as_str(), "configurable") {
                Some(AgentKind::Configurable)
            } else {
                find_built_in(kind.as_str())
            }
        },
        None => match find_built_in(name) {
            Some(kind) => Some(kind),
            None => Some(AgentKind::Configurable),
        },
    }
}

/// Why an agent cannot be had.
#[derive(Debug, PartialEq, Eq)]
pub enum RegistryError {
    UnknownType { agent: String, kind: String },
    NotConfigured { agent: String },
    NotInstalled { agent: String, command: String },
}

/// [`RegistryError`] over mathematical text.
#[allow(inconsistent_fields)]
pub enum RegistryErrorView {
    UnknownType { agent: Seq<char>, kind: Seq<char> },
    NotConfigured { agent: Seq<char> },
    NotInstalled { agent: Seq<char>, command: Seq<char> },
}

impl View for RegistryError {
    type V = RegistryErrorView;

    open spec fn view(&self) -> RegistryErrorView {
        match *self {
            RegistryError::UnknownType { agent, kind } => RegistryErrorView::UnknownType {
                agent: agent@,
                kind: kind@,
            },
            RegistryError::NotConfigured { agent } => RegistryErrorView::NotConfigured {
                agent: agent@,
            },
            RegistryError::NotInstalled { agent, command } => RegistryErrorView::NotInstalled {
                agent: agent@,
                command: command@,
            },
        }
    }
}

impl RegistryErrorView {
    /// The error in words.
    pub open spec fn words(self) -> Seq<char> {
        match self {
            RegistryErrorView::UnknownType { agent, kind } => "agent '"@ + agent
                + "': unknown type '"@ + kind
                + "' (known types: opencode, "@ + product::command()
                + ", pi, vibe, configurable)"@,
            RegistryErrorView::NotConfigured { agent } => "agent '"@ + agent
                + "' is not configured under [agents.*]"@,
            RegistryErrorView::NotInstalled { agent, command } => "agent '"@ + agent
                + "' is not installed (command '"@ + command + "' not found on PATH)"@,
        }
    }
}

impl RegistryError {
    /// The error in words.
    pub fn message(&self) -> (message: String)
        ensures
            message@ == self@.words(),
    {
        match self {
            RegistryError::UnknownType { agent, kind } => "agent '".to_owned().concat(
                agent.as_str(),
            ).concat("': unknown type '").concat(kind.as_str()).concat(
                "' (known types: opencode, ",
            ).concat(command_name().as_str()).concat(", pi, vibe, configurable)"),
            RegistryError::NotConfigured { agent } => "agent '".to_owned().concat(
                agent.as_str(),
            ).concat("' is not configured under [agents.*]"),
            RegistryError::NotInstalled { agent, command } => "agent '".to_owned().concat(
                agent.as_str(),
            ).concat("' is not installed (command '").concat(command.as_str()).concat(
                "' not found on PATH)",
            ),
        }
    }
}

/// A configured agent.
#[derive(Debug)]
pub enum Agent {
    OpenCode(OpenCodeAgent),
    Claude(ClaudeAgent),
    Pi(PiAgent),
    Vibe(VibeAgent),
    Configurable(ConfigurableAgent),
}

/// [`Agent`] over mathematical values.
pub struct AgentView {
    pub kind: AgentKind,
    pub descriptor: DescriptorView,
    pub config: ConfigView,
    pub probe: Option<Seq<char>>,
    /// Whether the output is read as plain JSON rows.
    pub plain_jsonl: bool,
}

pub open spec fn template_view(kind: AgentKind, template: TemplateAgent) -> AgentView {
    AgentView {
        kind,
        descriptor: template.descriptor@,
        config: template.config@,
        probe: agent::opt_probe(template.probe),
        plain_jsonl: false,
    }
}

impl View for Agent {
    type V = AgentView;

    open spec fn view(&self) -> AgentView {
        match *self {
            Agent::OpenCode(agent) => template_view(AgentKind::OpenCode, agent.template),
            Agent::Claude(agent) => template_view(AgentKind::Claude, agent.template),
            Agent::Pi(agent) => template_view(AgentKind::Pi, agent.template),
            Agent::Vibe(agent) => template_view(AgentKind::Vibe, agent.template),
            Agent::Configurable(agent) => AgentView {
                plain_jsonl: agent.plain_jsonl,
                ..template_view(AgentKind::Configurable, agent.template)
            },
        }
    }
}

/// The templates of an agent of this kind under an entry.
pub open spec fn config_of(kind: AgentKind, entry: ConfigView) -> ConfigView {
    match kind {
        AgentKind::OpenCode => configurable::overlaid(opencode::defaults(), entry),
        AgentKind::Claude => configurable::overlaid(claude::defaults(), entry),
        AgentKind::Pi => configurable::overlaid(pi::defaults(), entry),
        AgentKind::Vibe => configurable::overlaid(vibe::defaults(), entry),
        AgentKind::Configurable => entry,
    }
}

/// What an agent of this kind is called under the entry `name`.
pub open spec fn called(kind: AgentKind, name: Seq<char>) -> Seq<char> {
    match kind {
        AgentKind::OpenCode => "OpenCode"@,
        AgentKind::Claude => product::title(),
        AgentKind::Pi => "Pi"@,
        AgentKind::Vibe => "Vibe"@,
        AgentKind::Configurable => name,
    }
}

/// What an agent of this kind can do with these templates.
pub open spec fn abilities(kind: AgentKind, cfg: ConfigView) -> AgentCapabilities {
    match kind {
        AgentKind::OpenCode => opencode::capabilities(cfg),
        AgentKind::Claude => claude::capabilities(cfg),
        AgentKind::Pi => pi::capabilities(cfg),
        AgentKind::Vibe => vibe::capabilities(cfg),
        AgentKind::Configurable => configurable::capabilities_of(cfg),
    }
}

/// The agent of this kind for the entry `name`.
pub open spec fn built(
    kind: AgentKind,
    name: Seq<char>,
    entry: ConfigView,
    available: bool,
) -> AgentView {
    let cfg = config_of(kind, entry);
    AgentView {
        kind,
        descriptor: DescriptorView {
            id: name,
            name: called(kind, name),
            command: cfg.command,
            available,
            capabilities: abilities(kind, cfg),
        },
        config: cfg,
        probe: cfg.session_id_json_key,
        plain_jsonl: false,
    }
}

/// Builds the agent for the entry `name`.
pub fn build_agent(name: &str, agent_config: &AgentConfig) -> (agent: Result<Agent, RegistryError>)
    ensures
        match kind_for(name@, agent_config@.agent_type) {
            Some(kind) => agent is Ok && agent->Ok_0@ == built(kind, name@, agent_config@, true),
            None => agent is Err && agent->Err_0@ == (RegistryErrorView::UnknownType {
                agent: name@,
                kind: agent_config@.agent_type->0,
            }),
        },
{
    match find_kind(name, &agent_config.agent_type) {
        Some(AgentKind::OpenCode) => Ok(
            Agent::OpenCode(OpenCodeAgent::from_config(name, agent_config)),
        ),
        Some(AgentKind::Claude) => Ok(Agent::Claude(ClaudeAgent::from_config(name, agent_config))),
        Some(AgentKind::Pi) => Ok(Agent::Pi(PiAgent::from_config(name, agent_config))),
        Some(AgentKind::Vibe) => Ok(Agent::Vibe(VibeAgent::from_config(name, agent_config))),
        Some(AgentKind::Configurable) => Ok(
            Agent::Configurable(ConfigurableAgent::from_config(name, agent_config)),
        ),
        None => {
            let kind = match &agent_config.agent_type {
                Some(kind) => kind.clone(),
                None => String::new(),
            };
            Err(RegistryError::UnknownType { agent: name.to_owned(), kind })
        },
    }
}

/// What an agent runs, with the server where there is one.
pub open spec fn planned(
    agent: AgentView,
    invocation: Invocation,
    ctx: ContextView,
    endpoint: Option<server::EndpointView>,
) -> Result<CommandView, LaunchErrorView> {
    match agent.kind {
        AgentKind::OpenCode => opencode::planned(
            agent.descriptor.id,
            agent.config,
            invocation,
            ctx,
            endpoint,
        ),
        AgentKind::Pi => pi::planned(agent.descriptor.id, agent.config, invocation, ctx),
        _ => configurable::planned(agent.descriptor.id, agent.config, invocation, ctx),
    }
}

/// What an agent waits for with this on its screen, by its own wording.
pub open spec fn waits(kind: AgentKind, shown: Seq<char>) -> Option<ReasonView> {
    match kind {
        AgentKind::OpenCode => crate::agents::detect::opencode_waits(shown),
        AgentKind::Claude => crate::agents::detect::claude_waits(shown),
        _ => None,
    }
}

/// Records on a template whether its agent can be run.
fn mark(template: &mut TemplateAgent, available: bool)
    ensures
        final(template).descriptor@ == (DescriptorView {
            available,
            ..old(template).descriptor@
        }),
        final(template).config == old(template).config,
        final(template).probe == old(template).probe,
{
    template.descriptor.available = available;
}

impl Agent {
    /// The agent's template.
    pub fn template(&self) -> (template: &TemplateAgent)
        ensures
            self@ == (AgentView {
                plain_jsonl: self@.plain_jsonl,
                ..template_view(self@.kind, *template)
            }),
    {
        match self {
            Agent::OpenCode(agent) => &agent.template,
            Agent::Claude(agent) => &agent.template,
            Agent::Pi(agent) => &agent.template,
            Agent::Vibe(agent) => &agent.template,
            Agent::Configurable(agent) => &agent.template,
        }
    }

    /// What the agent is and can do.
    pub fn descriptor(&self) -> (descriptor: &AgentDescriptor)
        ensures
            descriptor@ == self@.descriptor,
    {
        &self.template().descriptor
    }

    /// What the agent can do.
    pub fn capabilities(&self) -> (capabilities: AgentCapabilities)
        ensures
            capabilities == self@.descriptor.capabilities,
    {
        self.template().descriptor.capabilities
    }

    /// How the session's id is found in the agent's output.
    pub fn session_id_probe(&self) -> (probe: Option<SessionIdProbe>)
        ensures
            agent::opt_probe(probe) == self@.probe,
    {
        agent::copy_probe(&self.template().probe)
    }

    /// Records whether the agent can be run.
    pub fn set_available(&mut self, available: bool)
        ensures
            final(self)@ == (AgentView {
                descriptor: DescriptorView { available, ..old(self)@.descriptor },
                ..old(self)@
            }),
    {
        match self {
            Agent::OpenCode(agent) => {
                mark(&mut agent.template, available);
            },
            Agent::Claude(agent) => {
                mark(&mut agent.template, available);
            },
            Agent::Pi(agent) => {
                mark(&mut agent.template, available);
            },
            Agent::Vibe(agent) => {
                mark(&mut agent.template, available);
            },
            Agent::Configurable(agent) => {
                mark(&mut agent.template, available);
            },
        }
    }

    /// The command of a launch, with the server where there is one.
    pub fn command(
        &self,
        invocation: &Invocation<'_>,
        ctx: &AgentContext,
        endpoint: &Option<Endpoint>,
    ) -> (plan: Result<CommandSpec, LaunchError>)
        ensures
            configurable::plan_view(plan) == planned(
                self@,
                *invocation,
                ctx@,
                server::opt_endpoint(*endpoint),
            ),
    {
        match self {
            Agent::OpenCode(agent) => agent.command(invocation, ctx, endpoint),
            Agent::Claude(agent) => agent.command(invocation, ctx),
            Agent::Pi(agent) => agent.command(invocation, ctx),
            Agent::Vibe(agent) => agent.command(invocation, ctx),
            Agent::Configurable(agent) => agent.command(invocation, ctx),
        }
    }

    /// Whether the agent's sessions have titles.
    pub fn has_session_titles(&self) -> (has: bool)
        ensures
            has == (self@.kind is OpenCode || self@.kind is Pi || self@.kind is Vibe),
    {
        match self {
            Agent::OpenCode(agent) => agent.has_session_titles(),
            Agent::Pi(agent) => agent.has_session_titles(),
            Agent::Vibe(agent) => agent.has_session_titles(),
            _ => false,
        }
    }

    /// What the agent waits for with this screen, by its own wording.
    pub fn awaiting_input(&self, screen: &vt100::Screen) -> (why: Option<AwaitingInputReason>)
        ensures
            model::opt_reason(why) == waits(
                self@.kind,
                crate::agents::detect::screen_text(*screen),
            ),
    {
        match self {
            Agent::OpenCode(agent) => agent.awaiting_input(screen),
            Agent::Claude(agent) => agent.awaiting_input(screen),
            _ => None,
        }
    }
}

/// What may be run where `command` is to be: the command itself where it names a
/// place, else a file of its name in each of the directories that are searched.
pub open spec fn candidates(command: Seq<char>, search: Option<Seq<Seq<char>>>) -> Seq<Seq<char>> {
    let name = text::trimmed(command);
    let path = paths::path_view(name);
    if name.len() == 0 {
        Seq::empty()
    } else if path.parts.len() > 1 || (path.absolute && path.parts.len() > 0) {
        seq![name]
    } else {
        match search {
            Some(dirs) => dirs.map_values(|dir: Seq<char>| paths::joined(dir, name)),
            None => Seq::empty(),
        }
    }
}

/// What may be run where `command` is to be: it is available where one of these is an
/// executable file.
pub fn command_candidates(command: &str, search: Option<&Vec<String>>) -> (files: Vec<String>)
    ensures
        text::views(files@) == candidates(
            command@,
            match search {
                Some(dirs) => Some(text::views(dirs@)),
                None => None,
            },
        ),
{
    let name = trim(command);
    let mut files: Vec<String> = Vec::new();
    assert(text::views(files@) == Seq::<Seq<char>>::empty());
    if name.is_empty() {
        return files;
    }
    let steps: usize = parts(name).len();
    if steps > 1 || (is_absolute(name) && steps > 0) {
        push_text(&mut files, name.to_owned());
        assert(text::views(files@) == seq![name@]);
        return files;
    }
    if let Some(dirs) = search {
        let ghost goal = text::views(dirs@).map_values(|dir: Seq<char>| paths::joined(dir, name@));
        let mut i: usize = 0;
        while i < dirs.len()
            invariant
                i <= dirs@.len(),
                goal == text::views(dirs@).map_values(
                    |dir: Seq<char>| paths::joined(dir, name@),
                ),
                text::views(files@) == goal.take(i as int),
            decreases dirs@.len() - i,
        {
            push_text(&mut files, join(dirs[i].as_str(), name));
            assert(text::views(files@) == goal.take(i + 1));
            i += 1;
        }
        assert(goal.take(i as int) == goal);
    }
    files
}

/// Whether `probe` may say this of a command.
pub open spec fn probed<F: Fn(&str) -> bool>(probe: F, command: Seq<char>, available: bool) -> bool {
    exists|c: &str| c@ == command && #[trigger] call_ensures(probe, (c,), available)
}

/// The entry `name` of a configuration; a blank one where there is none.
pub open spec fn entry_for(entries: Map<Seq<char>, ConfigView>, name: Seq<char>) -> ConfigView {
    if entries.contains_key(name) {
        entries[name]
    } else {
        config::blank_config()
    }
}

/// Whether `agent` is what the entry `name` asks for, and is marked as `probe` says.
pub open spec fn registered<F: Fn(&str) -> bool>(
    agent: AgentView,
    name: Seq<char>,
    entry: ConfigView,
    probe: F,
) -> bool {
    exists|available: bool|
        #[trigger] probed(probe, agent.descriptor.command, available) && kind_for(
            name,
            entry.agent_type,
        ) is Some && agent == built(kind_for(name, entry.agent_type)->0, name, entry, available)
}

/// Whether the type that the entry `name` asks for is unknown.
pub open spec fn misnamed(entries: Map<Seq<char>, ConfigView>, name: Seq<char>) -> bool {
    entries.contains_key(name) && kind_for(name, entries[name].agent_type) is None
}

/// Every configured agent, by the name of its entry.
#[derive(Debug)]
pub struct AgentRegistry {
    pub default: Option<String>,
    pub agents: Table<Agent>,
}

/// Marks an agent as `probe` says, and registers it.
fn insert_agent<F: Fn(&str) -> bool>(
    agents: &mut Table<Agent>,
    name: &str,
    agent: Agent,
    probe: &F,
)
    requires
        forall|c: &str| call_requires(*probe, (c,)),
    ensures
        exists|available: bool|
            #[trigger] probed(*probe, agent@.descriptor.command, available) && final(agents)@
                == old(agents)@.insert(
                name@,
                AgentView {
                    descriptor: DescriptorView { available, ..agent@.descriptor },
                    ..agent@
                },
            ),
{
    let mut agent = agent;
    let command = agent.descriptor().command.clone();
    let available = probe(command.as_str());
    assert(probed(*probe, command@, available));
    agent.set_available(available);
    agents.insert(name.to_owned(), agent);
}

/// What the agents hold while the built-in ones are seeded and the entries read.
spec fn consistent<F: Fn(&str) -> bool>(
    agents: Map<Seq<char>, AgentView>,
    entries: Map<Seq<char>, ConfigView>,
    probe: F,
) -> bool {
    forall|name: Seq<char>| #[trigger]
        agents.contains_key(name) ==> registered(
            agents[name],
            name,
            entry_for(entries, name),
            probe,
        )
}

proof fn lemma_marked<F: Fn(&str) -> bool>(
    before: Map<Seq<char>, AgentView>,
    after: Map<Seq<char>, AgentView>,
    name: Seq<char>,
    agent: AgentView,
    entry: ConfigView,
    probe: F,
)
    requires
        kind_for(name, entry.agent_type) is Some,
        agent == built(kind_for(name, entry.agent_type)->0, name, entry, true),
        exists|available: bool|
            #[trigger] probed(probe, agent.descriptor.command, available) && after
                == before.insert(
                name,
                AgentView {
                    descriptor: DescriptorView { available, ..agent.descriptor },
                    ..agent
                },
            ),
    ensures
        registered(after[name], name, entry, probe),
{
    let available = choose|available: bool|
        #[trigger] probed(probe, agent.descriptor.command, available) && after == before.insert(
            name,
            AgentView {
                descriptor: DescriptorView { available, ..agent.descriptor },
                ..agent
            },
        );
    assert(probed(probe, after[name].descriptor.command, available));
    assert(after[name] == built(kind_for(name, entry.agent_type)->0, name, entry, available));
}

/// Registers a built-in agent, unless an entry has its name.
fn seed<F: Fn(&str) -> bool>(
    agents: &mut Table<Agent>,
    entries: &Table<AgentConfig>,
    name: &str,
    probe: &F,
)
    requires
        forall|c: &str| call_requires(*probe, (c,)),
        consistent(old(agents)@, entries@, *probe),
    ensures
        consistent(final(agents)@, entries@, *probe),
        final(agents)@.dom() == if entries@.contains_key(name@) {
            old(agents)@.dom()
        } else {
            old(agents)@.dom().insert(name@)
        },
{
    if !entries.contains_key(name) {
        let blank = AgentConfig::default();
        match build_agent(name, &blank) {
            Ok(agent) => {
                let ghost before = agents@;
                let ghost new = agent@;
                insert_agent(agents, name, agent, probe);
                proof {
                    lemma_marked(before, agents@, name@, new, blank@, *probe);
                }
                assert forall|n: Seq<char>| #[trigger] agents@.contains_key(n) implies registered(
                    agents@[n],
                    n,
                    entry_for(entries@, n),
                    *probe,
                ) by {
                    if n != name@ {
                        assert(before.contains_key(n));
                    }
                }
            },
            Err(_) => {},
        }
    }
}

impl AgentRegistry {
    /// The registry of a configuration. `probe` says whether a command can be run. An
    /// unknown type is an error, so that a slip shows when the daemon starts.
    pub fn from_config_with<F: Fn(&str) -> bool>(config: &FavettoConfig, probe: &F) -> (registry:
        Result<AgentRegistry, RegistryError>)
        requires
            forall|c: &str| call_requires(*probe, (c,)),
        ensures
            match registry {
                Ok(registry) => {
                    &&& forall|name: Seq<char>| !#[trigger] misnamed(config.agents@, name)
                    &&& model::opt_text(registry.default) == model::opt_text(config.agent.default)
                    &&& forall|name: Seq<char>| #[trigger]
                        registry.agents@.contains_key(name) <==> config.agents@.contains_key(name)
                            || built_in(name) is Some
                    &&& forall|name: Seq<char>| #[trigger]
                        registry.agents@.contains_key(name) ==> registered(
                            registry.agents@[name],
                            name,
                            entry_for(config.agents@, name),
                            *probe,
                        )
                },
                Err(error) => exists|name: Seq<char>| #[trigger]
                    misnamed(config.agents@, name) && error@ == (RegistryErrorView::UnknownType {
                        agent: name,
                        kind: config.agents@[name].agent_type->0,
                    }) && forall|other: Seq<char>| #[trigger]
                        misnamed(config.agents@, other) ==> !text::precedes(other, name),
            },
    {
        let mut agents: Table<Agent> = Table::new();
        seed(&mut agents, &config.agents, "opencode", probe);
        seed(&mut agents, &config.agents, command_name().as_str(), probe);
        seed(&mut agents, &config.agents, "pi", probe);
        seed(&mut agents, &config.agents, "vibe", probe);
        let ghost entries = config.agents@;
        let ghost seeded = agents@.dom();
        assert forall|name: Seq<char>| seeded.contains(name) <==> !entries.contains_key(name)
            && built_in(name) is Some by {}
        let names = config.agents.sorted_keys();
        let ghost all = text::views(names@);
        let mut i: usize = 0;
        while i < names.len()
            invariant
                i <= names@.len(),
                all == text::views(names@),
                entries == config.agents@,
                text::ascending(all),
                forall|c: &str| call_requires(*probe, (c,)),
                forall|k: Seq<char>| #[trigger] all.contains(k) <==> entries.contains_key(k),
                forall|k: int| 0 <= k < i ==> !misnamed(entries, #[trigger] all[k]),
                consistent(agents@, entries, *probe),
                forall|name: Seq<char>|
                    seeded.contains(name) <==> !entries.contains_key(name) && built_in(
                        name,
                    ) is Some,
                forall|name: Seq<char>| #[trigger]
                    agents@.contains_key(name) <==> seeded.contains(name) || exists|k: int|
                        0 <= k < i && #[trigger] all[k] == name,
            decreases names@.len() - i,
        {
            let ghost name = all[i as int];
            assert(name == names@[i as int]@);
            assert(all.contains(name));
            if let Some(entry) = config.agents.get(names[i].as_str()) {
                match build_agent(names[i].as_str(), entry) {
                    Ok(agent) => {
                        let ghost before = agents@;
                        let ghost new = agent@;
                        insert_agent(&mut agents, names[i].as_str(), agent, probe);
                        proof {
                            lemma_marked(before, agents@, name, new, entry@, *probe);
                        }
                        assert forall|n: Seq<char>| #[trigger] agents@.contains_key(n) implies registered(
                            agents@[n],
                            n,
                            entry_for(entries, n),
                            *probe,
                        ) by {
                            if n != name {
                                assert(before.contains_key(n));
                            }
                        }
                        assert forall|n: Seq<char>| #[trigger]
                            agents@.contains_key(n) <==> seeded.contains(n) || exists|k: int|
                                0 <= k < i + 1 && #[trigger] all[k] == n by {
                            if n == name {
                                assert(all[i as int] == n);
                            } else {
                                assert(before.contains_key(n) == agents@.contains_key(n));
                            }
                        }
                    },
                    Err(error) => {
                        assert(misnamed(entries, name));
                        assert forall|other: Seq<char>| #[trigger]
                            misnamed(entries, other) implies !text::precedes(other, name) by {
                            assert(all.contains(other));
                            let k = choose|k: int| 0 <= k < all.len() && all[k] == other;
                            if k < i {
                                assert(!misnamed(entries, all[k]));
                            } else if k > i {
                                text::lemma_ascending(all, i as int, k);
                            }
                            text::lemma_precedes_total(other, name);
                        }
                        return Err(error);
                    },
                }
            }
            i += 1;
        }
        assert forall|name: Seq<char>| !#[trigger] misnamed(entries, name) by {
            if entries.contains_key(name) {
                assert(all.contains(name));
                let k = choose|k: int| 0 <= k < all.len() && all[k] == name;
                assert(!misnamed(entries, all[k]));
            }
        }
        assert forall|name: Seq<char>| #[trigger]
            agents@.contains_key(name) <==> entries.contains_key(name) || built_in(name) is Some by {
            if entries.contains_key(name) {
                assert(all.contains(name));
                let k = choose|k: int| 0 <= k < all.len() && all[k] == name;
                assert(0 <= k < i && all[k] == name);
            }
            if agents@.contains_key(name) && !seeded.contains(name) {
                let k = choose|k: int| 0 <= k < i && #[trigger] all[k] == name;
                assert(all.contains(all[k]));
            }
        }
        Ok(AgentRegistry { default: copy_text(&config.agent.default), agents })
    }

    /// The agent under `name`.
    pub fn get(&self, name: &str) -> (agent: Option<&Agent>)
        ensures
            match agent {
                Some(agent) => table::lookup(self.agents@, name@) == Some(agent@),
                None => !self.agents@.contains_key(name@),
            },
    {
        self.agents.get(name)
    }

    /// The agent under `name`, where it can be run.
    pub fn get_checked(&self, name: &str) -> (agent: Result<&Agent, RegistryError>)
        ensures
            match agent {
                Ok(agent) => table::lookup(self.agents@, name@) == Some(agent@)
                    && agent@.descriptor.available,
                Err(error) => match table::lookup(self.agents@, name@) {
                    Some(agent) => !agent.descriptor.available && error@ == (
                    RegistryErrorView::NotInstalled {
                        agent: name@,
                        command: agent.descriptor.command,
                    }),
                    None => error@ == (RegistryErrorView::NotConfigured { agent: name@ }),
                },
            },
    {
        let agent = match self.get(name) {
            Some(agent) => agent,
            None => {
                return Err(RegistryError::NotConfigured { agent: name.to_owned() });
            },
        };
        let descriptor = agent.descriptor();
        if !descriptor.available {
            return Err(
                RegistryError::NotInstalled {
                    agent: name.to_owned(),
                    command: descriptor.command.clone(),
                },
            );
        }
        Ok(agent)
    }

    /// The agent that is used where none is named.
    pub fn default_agent(&self) -> (agent: Option<&Agent>)
        ensures
            match agent {
                Some(agent) => self.default is Some && table::lookup(
                    self.agents@,
                    self.default->0@,
                ) == Some(agent@),
                None => self.default is Some ==> !self.agents@.contains_key(self.default->0@),
            },
    {
        match &self.default {
            Some(name) => self.get(name.as_str()),
            None => None,
        }
    }

    /// Every agent's descriptor, in the order of their names.
    pub fn descriptors(&self) -> (descriptors: Vec<&AgentDescriptor>)
        ensures
            exists|names: Seq<Seq<char>>| #[trigger]
                text::ascending(names) && names.len() == descriptors@.len() && (forall|k: Seq<char>|
                    #[trigger] names.contains(k) <==> self.agents@.contains_key(k)) && (forall|
                    i: int,
                |
                    0 <= i < names.len() ==> (#[trigger] descriptors@[i])@
                        == self.agents@[names[i]].descriptor),
    {
        let names = self.agents.sorted_keys();
        let ghost all = text::views(names@);
        let mut descriptors: Vec<&AgentDescriptor> = Vec::new();
        let mut i: usize = 0;
        while i < names.len()
            invariant
                i <= names@.len(),
                all == text::views(names@),
                forall|k: Seq<char>| #[trigger] all.contains(k) <==> self.agents@.contains_key(k),
                descriptors@.len() == i,
                forall|j: int|
                    0 <= j < i ==> (#[trigger] descriptors@[j])@
                        == self.agents@[all[j]].descriptor,
            decreases names@.len() - i,
        {
            assert(all[i as int] == names@[i as int]@);
            assert(all.contains(all[i as int]));
            match self.agents.get(names[i].as_str()) {
                Some(agent) => {
                    descriptors.push(agent.descriptor());
                },
                None => {
                    assert(false);
                },
            }
            i += 1;
        }
        descriptors
    }
}

/// The four built-in agents are there whatever the configuration says, and an entry
/// with the name of one, and no type, is that agent.
pub proof fn law_built_in_agents_are_always_there(entries: Map<Seq<char>, ConfigView>)
    ensures
        built_in("opencode"@) == Some(AgentKind::OpenCode),
        built_in(product::command()) == Some(AgentKind::Claude),
        built_in("pi"@) == Some(AgentKind::Pi),
        built_in("vibe"@) == Some(AgentKind::Vibe),
        forall|name: Seq<char>|
            (#[trigger] built_in(name)) is Some && (!entries.contains_key(name)
                || entries[name].agent_type is None) ==> kind_for(
                name,
                entry_for(entries, name).agent_type,
            ) == built_in(name),
{
    reveal_strlit("opencode");
    reveal_strlit("pi");
    reveal_strlit("vibe");
    assert("opencode"@.len() == 8 && product::command().len() == 6 && "pi"@.len() == 2 && "vibe"@.len()
        == 4);
}

} // verus!
