//! The Mistral Vibe agent.
use crate::agents::agent;
use crate::agents::agent::{
    AgentCapabilities, AgentContext, AgentRunResult, CommandSpec, DescriptorView, Invocation,
    LaunchError, ResultView,
};
use crate::agents::claude;
use crate::agents::configurable;
use crate::agents::configurable::{kept_as_text, overlay, summarized, TemplateAgent};
use crate::agents::state;
use crate::agents::state::StateSourceConfig;
use crate::agents::vibe::session_index::{find_session, SessionStore};
use crate::agents::vibe::stream::{state_source, VibeState, VibeStreamParser, VibeStreamSource};
use crate::config;
use crate::config::{AgentConfig, ConfigView};
use crate::lines;
use crate::model;
use crate::text;
use crate::text::texts;
use vstd::prelude::*;

pub mod laws;
pub mod row_laws;
pub mod session_index;
pub mod store_laws;
pub mod stream;

verus! {

/// The built-in templates.
pub open spec fn defaults() -> ConfigView {
    ConfigView {
        command: "vibe"@,
        headless_args: Some(
            seq![
                "-p"@,
                "{prompt}"@,
                "--output"@,
                "streaming"@,
                "--auto-approve"@,
            ],
        ),
        run_args: Some(
            seq![
                "-p"@,
                "--provider"@,
                "{provider}"@,
                "--model"@,
                "{model}"@,
                "{prompt}"@,
                "--output"@,
                "streaming"@,
                "--auto-approve"@,
            ],
        ),
        interactive_model_args: Some(
            seq![
                "--provider"@,
                "{provider}"@,
                "--model"@,
                "{model}"@,
            ],
        ),
        prompt_args: Some(
            seq![
                "{prompt}"@,
            ],
        ),
        submit_prompt: Some(true),
        ..config::blank_config()
    }
}

/// The built-in templates.
pub fn base_config() -> (base: AgentConfig)
    ensures
        base@ == defaults(),
{
    let headless_args = ["-p", "{prompt}", "--output", "streaming", "--auto-approve"];
    let run_args = ["-p", "--provider", "{provider}", "--model", "{model}", "{prompt}", "--output", "streaming", "--auto-approve"];
    let interactive_model_args = ["--provider", "{provider}", "--model", "{model}"];
    let prompt_args = ["{prompt}"];
    assert(headless_args@.map_values(|p: &str| p@) == defaults().headless_args->0);
    assert(run_args@.map_values(|p: &str| p@) == defaults().run_args->0);
    assert(interactive_model_args@.map_values(|p: &str| p@) == defaults().interactive_model_args->0);
    assert(prompt_args@.map_values(|p: &str| p@) == defaults().prompt_args->0);
    AgentConfig {
        command: "vibe".to_owned(),
        headless_args: Some(texts(&headless_args)),
        run_args: Some(texts(&run_args)),
        interactive_model_args: Some(texts(&interactive_model_args)),
        prompt_args: Some(texts(&prompt_args)),
        submit_prompt: Some(true),
        ..AgentConfig::default()
    }
}

/// What the agent can do with these templates.
pub open spec fn capabilities(cfg: ConfigView) -> AgentCapabilities {
    AgentCapabilities {
        reports_state: true,
        ..configurable::capabilities_of(cfg)
    }
}

/// The Vibe agent.
#[derive(Debug)]
pub struct VibeAgent {
    pub template: TemplateAgent,
}

impl VibeAgent {
    /// The agent for the entry `name`: the built-in templates under `overrides`.
    pub fn from_config(name: &str, overrides: &AgentConfig) -> (agent: VibeAgent)
        ensures
            agent.template.config@ == configurable::overlaid(defaults(), overrides@),
            agent.template.descriptor@ == (DescriptorView {
                id: name@,
                name: "Vibe"@,
                command: agent.template.config@.command,
                available: true,
                capabilities: capabilities(agent.template.config@),
            }),
            agent::opt_probe(agent.template.probe)
                == agent.template.config@.session_id_json_key,
    {
        let mut config = base_config();
        overlay(&mut config, overrides);
        let mut template = TemplateAgent::new(name, "Vibe", config);
        // Unattended runs stream their state; there is no channel for permissions.
        template.descriptor.capabilities.reports_state = true;
        VibeAgent { template }
    }

    /// The command of a launch.
    pub fn command(&self, invocation: &Invocation<'_>, ctx: &AgentContext) -> (plan: Result<
        CommandSpec,
        LaunchError,
    >)
        ensures
            configurable::plan_view(plan) == configurable::planned(
                self.template.descriptor@.id,
                self.template.config@,
                *invocation,
                ctx@,
            ),
    {
        self.template.command(invocation, ctx)
    }

    /// What a finished run came to: its summary, or its text where it printed no
    /// structured rows.
    pub fn parse_output(&self, raw: &str, exit_code: Option<i32>) -> (result: AgentRunResult)
        ensures
            result@ == parsed_output(raw@, exit_code),
    {
        let mut parser = VibeStreamParser::new();
        parser.push(raw.as_bytes());
        parser.finish(exit_code, &None);
        let summary = parser.summary();
        if summary.outcome.is_none() && summary.text.as_str().is_empty()
            && summary.tool_calls.len() == 0 {
            return kept_as_text(raw, exit_code, None);
        }
        summarized(raw, exit_code, summary)
    }

    /// How a launch is observed.
    pub fn state_source(&self, cfg: &StateSourceConfig) -> (source: Option<VibeStreamSource>)
        ensures
            source is Some <==> cfg.headless && state::has_pair(
                text::views(cfg.args@),
                "--output"@,
                "streaming"@,
            ),
            source is Some ==> model::opt_text(source->0.cwd) == model::opt_text(cfg.cwd),
    {
        state_source(cfg)
    }

    /// Whether sessions have titles.
    pub fn has_session_titles(&self) -> (has: bool)
        ensures
            has,
    {
        true
    }

    /// The title of a session, from the session store.
    pub fn session_title(&self, store: &Option<SessionStore>, session_id: &str) -> (title: Option<
        String,
    >)
        ensures
            model::opt_text(title) == match *store {
                Some(store) => match session_index::session_in(store, session_id@) {
                    Some(identity) => identity.title,
                    None => None,
                },
                None => None,
            },
    {
        match find_session(store, session_id) {
            Some(identity) => identity.title,
            None => None,
        }
    }
}

/// What rows on stdout come to.
pub open spec fn stream_end(raw: Seq<char>, exit_code: Option<i32>) -> VibeState {
    let (state, rest) = lines::read_lines::<VibeStreamParser>(
        VibeState::start(),
        configurable::bytes_of(raw),
    );
    state.ended(rest, exit_code, None)
}

/// What a finished run came to.
pub open spec fn parsed_output(raw: Seq<char>, exit_code: Option<i32>) -> ResultView {
    let summary = stream_end(raw, exit_code).summary;
    if claude::tells_nothing(summary) {
        configurable::text_result(raw, exit_code, None)
    } else {
        configurable::summary_result(raw, exit_code, summary)
    }
}

} // verus!
