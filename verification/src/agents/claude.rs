//! [`ClaudeAgent`] and how it is observed.
use crate::agent_hooks::{AgentHookLaunch, HookInjection};
use crate::agents::agent;
use crate::agents::agent::{
    AgentCapabilities, AgentContext, AgentRunResult, CommandSpec, DescriptorView, Invocation,
    LaunchError, ResultView,
};
use crate::agents::claude::hooks::{new_injection, state_source, ClaudeHookSource};
use crate::agents::claude::stream_json::{ClaudeState, ClaudeStreamJsonParser};
use crate::agents::configurable;
use crate::agents::configurable::{kept_as_text, overlay, summarized, TemplateAgent};
use crate::agents::detect;
use crate::agents::detect::{claude_awaiting_input, contents_of};
use crate::agents::product;
use crate::agents::product::{command_name, title_name};
use crate::agents::state::StateSourceConfig;
use crate::config;
use crate::config::{AgentConfig, ConfigView};
use crate::ids;
use crate::json;
use crate::lines;
use crate::model;
use crate::model::{copy_text, AwaitingInputReason, SummaryView};
use crate::table;
use crate::text;
use crate::text::texts;
use vstd::prelude::*;

pub mod hook_laws;
pub mod hooks;
pub mod laws;
pub mod payload_laws;
pub mod row_laws;
pub mod stream_json;

verus! {

/// The built-in templates.
pub open spec fn defaults() -> ConfigView {
    ConfigView {
        command: product::command(),
        headless_args: Some(
            seq![
                "-p"@,
                "--output-format"@,
                "stream-json"@,
                "--verbose"@,
                "--include-partial-messages"@,
                "{prompt}"@,
            ],
        ),
        run_args: Some(
            seq![
                "-p"@,
                "--model"@,
                "{model}"@,
                "--output-format"@,
                "stream-json"@,
                "--verbose"@,
                "--include-partial-messages"@,
                "{prompt}"@,
            ],
        ),
        interactive_model_args: Some(
            seq![
                "--model"@,
                "{model}"@,
            ],
        ),
        prompt_args: Some(
            seq![
                "{prompt}"@,
            ],
        ),
        session_id_json_key: Some("session_id"@),
        ..config::blank_config()
    }
}

/// The built-in templates.
pub fn base_config() -> (base: AgentConfig)
    ensures
        base@ == defaults(),
{
    let headless_args = ["-p", "--output-format", "stream-json", "--verbose", "--include-partial-messages", "{prompt}"];
    let run_args = ["-p", "--model", "{model}", "--output-format", "stream-json", "--verbose", "--include-partial-messages", "{prompt}"];
    let interactive_model_args = ["--model", "{model}"];
    let prompt_args = ["{prompt}"];
    assert(headless_args@.map_values(|p: &str| p@) == defaults().headless_args->0);
    assert(run_args@.map_values(|p: &str| p@) == defaults().run_args->0);
    assert(interactive_model_args@.map_values(|p: &str| p@) == defaults().interactive_model_args->0);
    assert(prompt_args@.map_values(|p: &str| p@) == defaults().prompt_args->0);
    AgentConfig {
        command: command_name(),
        headless_args: Some(texts(&headless_args)),
        run_args: Some(texts(&run_args)),
        interactive_model_args: Some(texts(&interactive_model_args)),
        prompt_args: Some(texts(&prompt_args)),
        session_id_json_key: Some("session_id".to_owned()),
        ..AgentConfig::default()
    }
}

/// What the agent can do with these templates.
pub open spec fn capabilities(cfg: ConfigView) -> AgentCapabilities {
    AgentCapabilities {
        reports_state: true,
        permission_channel: false,
        ..configurable::capabilities_of(cfg)
    }
}

/// An agent that streams its rows, and reports over hooks.
#[derive(Debug)]
pub struct ClaudeAgent {
    pub template: TemplateAgent,
}

impl ClaudeAgent {
    /// The agent for the entry `name`: the built-in templates under `overrides`.
    pub fn from_config(name: &str, overrides: &AgentConfig) -> (agent: ClaudeAgent)
        ensures
            agent.template.config@ == configurable::overlaid(defaults(), overrides@),
            agent.template.descriptor@ == (DescriptorView {
                id: name@,
                name: product::title(),
                command: agent.template.config@.command,
                available: true,
                capabilities: capabilities(agent.template.config@),
            }),
            agent::opt_probe(agent.template.probe)
                == agent.template.config@.session_id_json_key,
    {
        let mut config = base_config();
        overlay(&mut config, overrides);
        let mut template = TemplateAgent::new(name, title_name().as_str(), config);
        // Sessions at a terminal are only observed: the hook receiver never answers.
        template.descriptor.capabilities.reports_state = true;
        template.descriptor.capabilities.permission_channel = false;
        ClaudeAgent { template }
    }

    /// The command of a launch.
    pub fn command(&self, invocation: &Invocation<'_>, ctx: &AgentContext) -> (plan: Result<
        CommandSpec,
        LaunchError,
    >)
        ensures
            configurable::plan_view(plan) == configurable::planned(
                self.template.descriptor@.id,
                self.template.config@,
                *invocation,
                ctx@,
            ),
    {
        self.template.command(invocation, ctx)
    }

    /// What a finished run came to: its summary, or its text where it printed no
    /// structured rows.
    pub fn parse_output(&self, raw: &str, exit_code: Option<i32>) -> (result: AgentRunResult)
        ensures
            result@ == parsed_output(raw@, exit_code),
    {
        let mut parser = ClaudeStreamJsonParser::new();
        parser.push(raw.as_bytes());
        parser.finish(exit_code);
        let summary = parser.summary();
        if summary.outcome.is_none() && summary.text.as_str().is_empty()
            && summary.tool_calls.len() == 0 {
            return kept_as_text(raw, exit_code, copy_text(&summary.session_id));
        }
        summarized(raw, exit_code, summary)
    }

    /// How a launch is observed.
    pub fn state_source(&self, cfg: &StateSourceConfig) -> (source: Option<ClaudeHookSource>)
        ensures
            source is Some <==> cfg.headless || (cfg.hook_router && hooks::launch_token(cfg.env@) is Some),
            source is Some ==> {
                &&& model::opt_text(source->0.token) == hooks::launch_token(cfg.env@)
                &&& model::opt_text(source->0.hook_url) == table::lookup(
                    cfg.env@,
                    hooks::HOOK_URL_ENV@,
                )
                &&& model::opt_text(source->0.settings_path) == table::lookup(
                    cfg.env@,
                    hooks::HOOK_SETTINGS_ENV@,
                )
                &&& source->0.receiving == (cfg.hook_router && hooks::launch_token(
                    cfg.env@,
                ) is Some)
                &&& source->0.stdout == cfg.headless
            },
    {
        state_source(cfg)
    }

    /// What a launch is given so that it reports over hooks, with the path and the
    /// text of the settings file that is to be written first.
    pub fn hook_injection(&self, launch: &AgentHookLaunch) -> (plan: (
        String,
        String,
        HookInjection,
    ))
        ensures
            exists|token: Seq<char>|
                #[trigger] ids::id_form(token) && plan.0@ == hooks::settings_path(
                    launch.dir@,
                    token,
                ) && plan.1@ == json::written(
                    hooks::settings_doc(hooks::hook_url(launch.endpoint@, token)),
                ) && text::views(plan.2.args@) == seq![
                    "--settings"@,
                    hooks::settings_path(launch.dir@, token),
                ] && plan.2.env@ == Map::<Seq<char>, Seq<char>>::empty().insert(
                    hooks::HOOK_URL_ENV@,
                    hooks::hook_url(launch.endpoint@, token),
                ).insert(hooks::HOOK_SETTINGS_ENV@, hooks::settings_path(launch.dir@, token)),
    {
        new_injection(launch)
    }

    /// What the session waits for with this screen.
    pub fn awaiting_input(&self, screen: &vt100::Screen) -> (why: Option<AwaitingInputReason>)
        ensures
            model::opt_reason(why) == detect::claude_waits(detect::screen_text(*screen)),
    {
        claude_awaiting_input(contents_of(screen).as_str())
    }
}

/// Whether a summary tells nothing of a run.
pub open spec fn tells_nothing(summary: SummaryView) -> bool {
    summary.outcome is None && summary.text.len() == 0 && summary.tool_calls.len() == 0
}

/// What rows on stdout come to.
pub open spec fn stream_end(raw: Seq<char>, exit_code: Option<i32>) -> ClaudeState {
    let (state, rest) = lines::read_lines::<ClaudeStreamJsonParser>(
        ClaudeState::start(),
        configurable::bytes_of(raw),
    );
    state.ended(rest, exit_code)
}

/// What a finished run came to.
pub open spec fn parsed_output(raw: Seq<char>, exit_code: Option<i32>) -> ResultView {
    let summary = stream_end(raw, exit_code).summary;
    if tells_nothing(summary) {
        configurable::text_result(raw, exit_code, summary.session_id)
    } else {
        configurable::summary_result(raw, exit_code, summary)
    }
}

} // verus!
