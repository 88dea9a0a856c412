//! The agents that a configuration describes by templates alone, and the renderer
//! of templates that the built-in agents share.
use crate::agents::agent;
use crate::agents::agent::{
    append_template, copy_probe, extract_session_id_from_lines, substitute, AgentCapabilities,
    AgentContext, AgentDescriptor, AgentRunResult, CommandSpec, CommandView, ContextView,
    DescriptorView, Invocation, LaunchError, LaunchErrorView, OutputView, ResultView, RunOutput,
    SessionIdProbe, SubmitStrategy, SUBMIT_DELAY, SUBMIT_MAX_SENDS,
};
use crate::agents::plain_jsonl::{PlainJsonlParser, PlainState, PLAIN_JSONL};
use crate::config;
use crate::config::{copy_args, AgentConfig, ConfigView};
use crate::json;
use crate::lines;
use crate::model;
use crate::model::{copy_text, copy_texts};
use crate::text;
use crate::text::{str_eq, trim};
use vstd::prelude::*;

verus! {

/// `s`, or nothing where there is none.
pub open spec fn or_blank(s: Option<Seq<char>>) -> Seq<char> {
    match s {
        Some(s) => s,
        None => Seq::empty(),
    }
}

/// `s`, or nothing where there is none.
pub fn text_or_blank(s: &Option<String>) -> (t: &str)
    ensures
        t@ == or_blank(model::opt_text(*s)),
{
    match s {
        Some(s) => s.as_str(),
        None => {
            proof {
                reveal_strlit("");
            }
            assert(""@ == Seq::<char>::empty());
            ""
        },
    }
}

/// What a template says of an agent's abilities.
pub open spec fn capabilities_of(config: ConfigView) -> AgentCapabilities {
    AgentCapabilities {
        interactive: true,
        headless: config.headless_args is Some || config.run_args is Some,
        resume: config.resume_args is Some,
        model_selection: config.run_args is Some || config.interactive_model_args is Some,
        providers: false,
        structured_output: config.session_id_json_key is Some,
        reports_session_id: config.session_id_json_key is Some,
        prompt_prefill: config.submit_prompt == Some(true),
        interactive_prompt: config.prompt_args is Some || config.submit_prompt == Some(true),
        reports_state: false,
        permission_channel: false,
        concurrent_attach: false,
    }
}

/// Derives an agent's abilities from its templates.
pub fn capabilities_from_config(config: &AgentConfig) -> (capabilities: AgentCapabilities)
    ensures
        capabilities == capabilities_of(config@),
{
    let submits = match config.submit_prompt {
        Some(submits) => submits,
        None => false,
    };
    AgentCapabilities {
        interactive: true,
        headless: config.headless_args.is_some() || config.run_args.is_some(),
        resume: config.resume_args.is_some(),
        model_selection: config.run_args.is_some() || config.interactive_model_args.is_some(),
        providers: false,
        structured_output: config.session_id_json_key.is_some(),
        reports_session_id: config.session_id_json_key.is_some(),
        prompt_prefill: submits,
        interactive_prompt: config.prompt_args.is_some() || submits,
        reports_state: false,
        permission_channel: false,
        concurrent_attach: false,
    }
}

/// `base` with every field that `over` sets in place of its own. The type and the
/// settings for git are not overlaid; variables join key by key.
pub open spec fn overlaid(base: ConfigView, over: ConfigView) -> ConfigView {
    ConfigView {
        agent_type: base.agent_type,
        command: if text::trimmed(over.command).len() > 0 {
            over.command
        } else {
            base.command
        },
        args: if over.args.len() > 0 {
            over.args
        } else {
            base.args
        },
        headless_args: json::first_of(over.headless_args, base.headless_args),
        run_args: json::first_of(over.run_args, base.run_args),
        resume_args: json::first_of(over.resume_args, base.resume_args),
        interactive_model_args: json::first_of(
            over.interactive_model_args,
            base.interactive_model_args,
        ),
        session_id_json_key: json::first_of(over.session_id_json_key, base.session_id_json_key),
        prompt_args: json::first_of(over.prompt_args, base.prompt_args),
        submit_prompt: json::first_of(over.submit_prompt, base.submit_prompt),
        env: base.env.union_prefer_right(over.env),
        cwd: json::first_of(over.cwd, base.cwd),
        git: base.git,
    }
}

/// Overlays the fields that `overrides` sets onto `base`: what an entry leaves out
/// keeps its built-in value.
pub fn overlay(base: &mut AgentConfig, overrides: &AgentConfig)
    ensures
        final(base)@ == overlaid(old(base)@, overrides@),
{
    if !trim(overrides.command.as_str()).is_empty() {
        base.command = overrides.command.clone();
    }
    if overrides.args.len() > 0 {
        base.args = copy_texts(&overrides.args);
    }
    if overrides.headless_args.is_some() {
        base.headless_args = copy_args(&overrides.headless_args);
    }
    if overrides.run_args.is_some() {
        base.run_args = copy_args(&overrides.run_args);
    }
    if overrides.resume_args.is_some() {
        base.resume_args = copy_args(&overrides.resume_args);
    }
    if overrides.interactive_model_args.is_some() {
        base.interactive_model_args = copy_args(&overrides.interactive_model_args);
    }
    if overrides.session_id_json_key.is_some() {
        base.session_id_json_key = copy_text(&overrides.session_id_json_key);
    }
    if overrides.prompt_args.is_some() {
        base.prompt_args = copy_args(&overrides.prompt_args);
    }
    if overrides.submit_prompt.is_some() {
        base.submit_prompt = overrides.submit_prompt;
    }
    base.env.extend(&overrides.env);
    if overrides.cwd.is_some() {
        base.cwd = copy_text(&overrides.cwd);
    }
}

/// An entry that sets nothing changes nothing.
pub proof fn law_blank_overlay_changes_nothing(base: ConfigView)
    ensures
        overlaid(base, config::blank_config()) == base,
{
    assert(text::trimmed(Seq::<char>::empty()).len() == 0);
    assert(base.env.union_prefer_right(Map::empty()) =~= base.env);
}

/// Overlaying an entry twice is overlaying it once.
pub proof fn law_overlay_is_idempotent(base: ConfigView, over: ConfigView)
    ensures
        overlaid(overlaid(base, over), over) == overlaid(base, over),
{
    assert(base.env.union_prefer_right(over.env).union_prefer_right(over.env)
        =~= base.env.union_prefer_right(over.env));
}

/// An overlay takes no ability away.
pub proof fn law_overlay_keeps_abilities(base: ConfigView, over: ConfigView)
    ensures
        ({
            let before = capabilities_of(base);
            let after = capabilities_of(overlaid(base, over));
            &&& before.headless ==> after.headless
            &&& before.resume ==> after.resume
            &&& before.model_selection ==> after.model_selection
            &&& before.reports_session_id ==> after.reports_session_id
        }),
{
}

/// The variables of a template for a fresh interactive session.
pub open spec fn interactive_vars(ctx: ContextView) -> Seq<(Seq<char>, Seq<char>)> {
    seq![("{provider}"@, or_blank(ctx.provider)), ("{model}"@, or_blank(ctx.model))]
}

/// The variables of a template that seeds an interactive session.
pub open spec fn prompt_vars(ctx: ContextView) -> Seq<(Seq<char>, Seq<char>)> {
    seq![
        ("{prompt}"@, or_blank(ctx.prompt)),
        ("{provider}"@, or_blank(ctx.provider)),
        ("{model}"@, or_blank(ctx.model)),
    ]
}

/// The variables of a template for an unattended run.
pub open spec fn headless_vars(ctx: ContextView) -> Seq<(Seq<char>, Seq<char>)> {
    seq![
        ("{prompt}"@, or_blank(ctx.prompt)),
        ("{provider}"@, or_blank(ctx.provider)),
        ("{model}"@, or_blank(ctx.model)),
        ("{session_id}"@, or_blank(ctx.session_id)),
    ]
}

/// The variables of a template that reattaches to a session.
pub open spec fn resume_vars(ctx: ContextView) -> Seq<(Seq<char>, Seq<char>)> {
    seq![("{session_id}"@, or_blank(ctx.session_id))]
}

/// A launch with these arguments and this prompt on stdin.
pub open spec fn launch(
    cfg: ConfigView,
    ctx: ContextView,
    args: Seq<Seq<char>>,
    stdin_prompt: Option<Seq<char>>,
    stdin_eof: bool,
    submit: SubmitStrategy,
) -> CommandView {
    CommandView {
        program: cfg.command,
        args,
        env: cfg.env,
        cwd: json::first_of(ctx.cwd, cfg.cwd),
        stdin_prompt,
        stdin_eof,
        submit,
    }
}

/// The launch of an interactive session. A selected model may need an entry point
/// of its own. A prompt travels on the command line where a template takes it, and
/// is then submitted only where the agent does not do so itself; else it is typed.
pub open spec fn interactive_launch(cfg: ConfigView, ctx: ContextView) -> CommandView {
    let base = match cfg.interactive_model_args {
        Some(args) if ctx.model is Some => args,
        _ => cfg.args,
    };
    let seeded = ctx.prompt is Some && cfg.prompt_args is Some;
    let via_args = seeded && agent::takes_prompt(cfg.prompt_args->0);
    launch(
        cfg,
        ctx,
        agent::rendered(base, interactive_vars(ctx)) + if seeded {
            agent::rendered(cfg.prompt_args->0, prompt_vars(ctx))
        } else {
            Seq::empty()
        },
        if via_args {
            None
        } else {
            ctx.prompt
        },
        false,
        if via_args && cfg.submit_prompt == Some(true) {
            SubmitStrategy::AfterSettle { delay: SUBMIT_DELAY, max_sends: SUBMIT_MAX_SENDS }
        } else {
            SubmitStrategy::Never
        },
    )
}

/// The launch of an unattended run by this template: its stdin ends after the
/// prompt.
pub open spec fn headless_launch(
    cfg: ConfigView,
    ctx: ContextView,
    template: Seq<Seq<char>>,
) -> CommandView {
    launch(
        cfg,
        ctx,
        agent::rendered(template, headless_vars(ctx)),
        if agent::takes_prompt(template) {
            None
        } else {
            ctx.prompt
        },
        true,
        SubmitStrategy::Never,
    )
}

/// What an agent with these templates runs.
pub open spec fn planned(
    id: Seq<char>,
    cfg: ConfigView,
    invocation: Invocation,
    ctx: ContextView,
) -> Result<CommandView, LaunchErrorView> {
    if text::trimmed(cfg.command).len() == 0 {
        Err(LaunchErrorView::NoCommand { agent: id })
    } else {
        match invocation {
            Invocation::Interactive { .. } => Ok(interactive_launch(cfg, ctx)),
            Invocation::Headless { .. } => if ctx.model is Some {
                match cfg.run_args {
                    Some(template) => Ok(headless_launch(cfg, ctx, template)),
                    None => Err(LaunchErrorView::NoRunArgs { agent: id }),
                }
            } else {
                match cfg.headless_args {
                    Some(template) => Ok(headless_launch(cfg, ctx, template)),
                    None => Err(LaunchErrorView::NoHeadlessArgs { agent: id }),
                }
            },
            Invocation::Resume(_) => match cfg.resume_args {
                Some(template) => Ok(
                    launch(
                        cfg,
                        ctx,
                        agent::rendered(template, resume_vars(ctx)),
                        None,
                        false,
                        SubmitStrategy::Never,
                    ),
                ),
                None => Err(LaunchErrorView::NoResumeArgs { agent: id }),
            },
        }
    }
}

/// The outcome of a plan over mathematical values.
pub open spec fn plan_view(plan: Result<CommandSpec, LaunchError>) -> Result<
    CommandView,
    LaunchErrorView,
> {
    match plan {
        Ok(spec) => Ok(spec@),
        Err(error) => Err(error@),
    }
}

/// Renders the templates of a configuration into launches.
#[derive(Debug)]
pub struct TemplateAgent {
    pub descriptor: AgentDescriptor,
    pub config: AgentConfig,
    pub probe: Option<SessionIdProbe>,
}

impl TemplateAgent {
    /// The renderer for the entry `id` of an agent called `name`.
    pub fn new(id: &str, name: &str, config: AgentConfig) -> (template: TemplateAgent)
        ensures
            template.descriptor@ == (DescriptorView {
                id: id@,
                name: name@,
                command: config@.command,
                available: true,
                capabilities: capabilities_of(config@),
            }),
            template.config@ == config@,
            agent::opt_probe(template.probe) == config@.session_id_json_key,
    {
        let capabilities = capabilities_from_config(&config);
        let probe = match &config.session_id_json_key {
            Some(key) => Some(SessionIdProbe::JsonKey(key.clone())),
            None => None,
        };
        let descriptor = AgentDescriptor {
            id: id.to_owned(),
            name: name.to_owned(),
            command: config.command.clone(),
            available: true,
            capabilities,
        };
        TemplateAgent { descriptor, config, probe }
    }

    fn interactive(&self, ctx: &AgentContext) -> (spec: CommandSpec)
        ensures
            spec@ == interactive_launch(self.config@, ctx@),
    {
        let cfg = &self.config;
        let provider = text_or_blank(&ctx.provider);
        let model = text_or_blank(&ctx.model);
        let mut base = &cfg.args;
        if ctx.model.is_some() {
            if let Some(args) = &cfg.interactive_model_args {
                base = args;
            }
        }
        let vars = [("{provider}", provider), ("{model}", model)];
        let mut args = substitute(base, &vars);
        assert(agent::var_views(vars@) == interactive_vars(ctx@));
        let mut via_args = false;
        let ghost first = text::views(args@);
        assert(first + Seq::<Seq<char>>::empty() == first);
        if let (Some(prompt), Some(prompt_args)) = (&ctx.prompt, &cfg.prompt_args) {
            let vars = [("{prompt}", prompt.as_str()), ("{provider}", provider), ("{model}", model)];
            via_args = append_template(&mut args, prompt_args, &vars);
            assert(agent::var_views(vars@) == prompt_vars(ctx@));
        }
        let stdin_prompt = if via_args {
            None
        } else {
            copy_text(&ctx.prompt)
        };
        let submits = match cfg.submit_prompt {
            Some(submits) => submits,
            None => false,
        };
        let submit = if via_args && submits {
            SubmitStrategy::AfterSettle { delay: SUBMIT_DELAY, max_sends: SUBMIT_MAX_SENDS }
        } else {
            SubmitStrategy::Never
        };
        self.finish(ctx, args, stdin_prompt, false, submit)
    }

    fn headless(&self, ctx: &AgentContext, template: &Vec<String>) -> (spec: CommandSpec)
        ensures
            spec@ == headless_launch(self.config@, ctx@, text::views(template@)),
    {
        let vars = [
            ("{prompt}", text_or_blank(&ctx.prompt)),
            ("{provider}", text_or_blank(&ctx.provider)),
            ("{model}", text_or_blank(&ctx.model)),
            ("{session_id}", text_or_blank(&ctx.session_id)),
        ];
        let mut args: Vec<String> = Vec::new();
        let via_args = append_template(&mut args, template, &vars);
        assert(agent::var_views(vars@) == headless_vars(ctx@));
        assert(text::views(args@) == agent::rendered(text::views(template@), headless_vars(ctx@)));
        let stdin_prompt = if via_args {
            None
        } else {
            copy_text(&ctx.prompt)
        };
        self.finish(ctx, args, stdin_prompt, true, SubmitStrategy::Never)
    }

    /// A launch of the configured command.
    pub fn finish(
        &self,
        ctx: &AgentContext,
        args: Vec<String>,
        stdin_prompt: Option<String>,
        stdin_eof: bool,
        submit: SubmitStrategy,
    ) -> (spec: CommandSpec)
        ensures
            spec@ == launch(
                self.config@,
                ctx@,
                text::views(args@),
                model::opt_text(stdin_prompt),
                stdin_eof,
                submit,
            ),
    {
        let cwd = if ctx.cwd.is_some() {
            copy_text(&ctx.cwd)
        } else {
            copy_text(&self.config.cwd)
        };
        CommandSpec {
            program: self.config.command.clone(),
            args,
            env: self.config.env.clone(),
            cwd,
            stdin_prompt,
            stdin_eof,
            submit,
        }
    }

    /// The command of a launch, with the values in `ctx`.
    pub fn command(&self, invocation: &Invocation<'_>, ctx: &AgentContext) -> (plan: Result<
        CommandSpec,
        LaunchError,
    >)
        ensures
            plan_view(plan) == planned(self.descriptor@.id, self.config@, *invocation, ctx@),
    {
        let cfg = &self.config;
        if trim(cfg.command.as_str()).is_empty() {
            return Err(LaunchError::NoCommand { agent: self.descriptor.id.clone() });
        }
        match invocation {
            Invocation::Interactive { .. } => Ok(self.interactive(ctx)),
            Invocation::Headless { .. } => {
                if ctx.model.is_some() {
                    match &cfg.run_args {
                        Some(template) => Ok(self.headless(ctx, template)),
                        None => Err(LaunchError::NoRunArgs { agent: self.descriptor.id.clone() }),
                    }
                } else {
                    match &cfg.headless_args {
                        Some(template) => Ok(self.headless(ctx, template)),
                        None => Err(
                            LaunchError::NoHeadlessArgs { agent: self.descriptor.id.clone() },
                        ),
                    }
                }
            },
            Invocation::Resume(_) => match &cfg.resume_args {
                Some(template) => {
                    let vars = [("{session_id}", text_or_blank(&ctx.session_id))];
                    let args = substitute(template, &vars);
                    assert(agent::var_views(vars@) == resume_vars(ctx@));
                    Ok(self.finish(ctx, args, None, false, SubmitStrategy::Never))
                },
                None => Err(LaunchError::NoResumeArgs { agent: self.descriptor.id.clone() }),
            },
        }
    }
}

/// An unattended run that is given its prompt reads it from the command line or
/// from stdin, never both and never neither, and its stdin ends.
pub proof fn law_headless_prompt_travels_once(
    id: Seq<char>,
    cfg: ConfigView,
    invocation: Invocation,
    ctx: ContextView,
    prompt: Seq<char>,
)
    requires
        invocation is Headless,
        ctx.prompt == Some(prompt),
        planned(id, cfg, invocation, ctx) is Ok,
    ensures
        ({
            let spec = planned(id, cfg, invocation, ctx)->Ok_0;
            let template = if ctx.model is Some {
                cfg.run_args->0
            } else {
                cfg.headless_args->0
            };
            &&& spec.stdin_eof
            &&& spec.stdin_prompt is None <==> agent::takes_prompt(template)
            &&& spec.stdin_prompt is Some ==> spec.stdin_prompt == Some(prompt)
            &&& spec.args.len() == template.len()
        }),
{
}

/// A prompt that was typed is not submitted again: Enter is pressed only for a
/// prompt that travelled on the command line.
pub proof fn law_enter_follows_a_prefilled_prompt(
    id: Seq<char>,
    cfg: ConfigView,
    invocation: Invocation,
    ctx: ContextView,
)
    requires
        planned(id, cfg, invocation, ctx) is Ok,
        !(planned(id, cfg, invocation, ctx)->Ok_0.submit is Never),
    ensures
        invocation is Interactive,
        ctx.prompt is Some,
        planned(id, cfg, invocation, ctx)->Ok_0.stdin_prompt is None,
        cfg.submit_prompt == Some(true),
{
}

/// An agent that a configuration describes by templates alone.
#[derive(Debug)]
pub struct ConfigurableAgent {
    pub template: TemplateAgent,
    /// Whether the output is read as one JSON object per line.
    pub plain_jsonl: bool,
}

/// The result of a run whose output is kept as it is.
pub open spec fn text_result(
    raw: Seq<char>,
    exit_code: Option<i32>,
    session_id: Option<Seq<char>>,
) -> ResultView {
    ResultView { exit_code, session_id, output: OutputView::Text(raw), raw }
}

/// The result of a run whose output was read into a summary.
pub open spec fn summary_result(
    raw: Seq<char>,
    exit_code: Option<i32>,
    summary: model::SummaryView,
) -> ResultView {
    ResultView {
        exit_code,
        session_id: summary.session_id,
        output: OutputView::Summary(summary),
        raw,
    }
}

/// The result of a run whose output was read into a summary.
pub fn summarized(raw: &str, exit_code: Option<i32>, summary: &model::RunSummary) -> (result:
    AgentRunResult)
    ensures
        result@ == summary_result(raw@, exit_code, summary@),
{
    AgentRunResult {
        exit_code,
        session_id: copy_text(&summary.session_id),
        output: RunOutput::Summary(summary.clone()),
        raw: raw.to_owned(),
    }
}

/// The result of a run whose output is kept as it is.
pub fn kept_as_text(raw: &str, exit_code: Option<i32>, session_id: Option<String>) -> (result:
    AgentRunResult)
    ensures
        result@ == text_result(raw@, exit_code, model::opt_text(session_id)),
{
    AgentRunResult {
        exit_code,
        session_id,
        output: RunOutput::Text(raw.to_owned()),
        raw: raw.to_owned(),
    }
}

/// The bytes of a text.
pub open spec fn bytes_of(s: Seq<char>) -> Seq<u8> {
    vstd::utf8::encode_utf8(s)
}

/// What plain JSON rows come to.
pub open spec fn plain_end(
    probe: Option<Seq<char>>,
    raw: Seq<char>,
    exit_code: Option<i32>,
) -> PlainState {
    let (state, rest) = lines::read_lines::<PlainJsonlParser>(
        PlainState::start(probe),
        bytes_of(raw),
    );
    state.ended(rest, exit_code)
}

impl ConfigurableAgent {
    /// The agent for the entry `name`.
    pub fn from_config(name: &str, config: &AgentConfig) -> (agent: ConfigurableAgent)
        ensures
            agent.template.descriptor@ == (DescriptorView {
                id: name@,
                name: name@,
                command: config@.command,
                available: true,
                capabilities: capabilities_of(config@),
            }),
            agent.template.config@ == config@,
            agent::opt_probe(agent.template.probe) == config@.session_id_json_key,
            !agent.plain_jsonl,
    {
        ConfigurableAgent {
            template: TemplateAgent::new(name, name, config.clone()),
            plain_jsonl: false,
        }
    }

    /// Chooses how the output of a run is read.
    pub fn with_output_format(self, output_format: &str) -> (agent: ConfigurableAgent)
        ensures
            agent.template == self.template,
            agent.plain_jsonl == (output_format@ == PLAIN_JSONL@),
    {
        ConfigurableAgent {
            template: self.template,
            plain_jsonl: str_eq(output_format, PLAIN_JSONL),
        }
    }

    /// The command of a launch.
    pub fn command(&self, invocation: &Invocation<'_>, ctx: &AgentContext) -> (plan: Result<
        CommandSpec,
        LaunchError,
    >)
        ensures
            plan_view(plan) == planned(
                self.template.descriptor@.id,
                self.template.config@,
                *invocation,
                ctx@,
            ),
    {
        self.template.command(invocation, ctx)
    }

    /// What a finished run came to: its text with the first session id in it, or,
    /// for plain JSON rows, the summary of them.
    pub fn parse_output(&self, raw: &str, exit_code: Option<i32>) -> (result: AgentRunResult)
        ensures
            result@ == if self.plain_jsonl {
                summary_result(
                    raw@,
                    exit_code,
                    plain_end(agent::opt_probe(self.template.probe), raw@, exit_code).summary,
                )
            } else {
                text_result(
                    raw@,
                    exit_code,
                    match agent::opt_probe(self.template.probe) {
                        Some(key) => agent::first_session_id(text::text_lines(raw@), key, 0),
                        None => None,
                    },
                )
            },
    {
        if self.plain_jsonl {
            let mut parser = PlainJsonlParser::new(copy_probe(&self.template.probe));
            parser.push(raw.as_bytes());
            parser.finish(exit_code);
            return summarized(raw, exit_code, parser.summary());
        }
        let session_id = match &self.template.probe {
            Some(probe) => extract_session_id_from_lines(raw, probe),
            None => None,
        };
        kept_as_text(raw, exit_code, session_id)
    }
}

} // verus!
