//! The pi agent.
//!
//! Unattended runs speak pi's RPC protocol: the prompt travels over stdin, which
//! stays open. Sessions at a terminal are observed by the file that pi appends to.
use crate::agents::agent;
use crate::agents::agent::{
    AgentCapabilities, AgentContext, AgentRunResult, CommandSpec, CommandView, ContextView,
    DescriptorView, Invocation, LaunchError, LaunchErrorView, ResultView, SubmitStrategy,
};
use crate::agents::configurable;
use crate::agents::configurable::{overlay, summarized, TemplateAgent};
use crate::agents::pi::file_tail::PiSessionFileSource;
use crate::agents::pi::json::{PiJsonlParser, PiState};
use crate::agents::pi::rpc::PiRpcSource;
use crate::agents::pi::session_file::{find_session_file, read_session_name, SessionFile};
use crate::agents::state;
use crate::agents::state::{find_pair, StateSourceConfig};
use crate::config;
use crate::config::{AgentConfig, ConfigView};
use crate::lines;
use crate::model;
use crate::model::Cost;
use crate::text;
use crate::text::{push_text, texts, trim};
use vstd::prelude::*;

pub mod file_laws;
pub mod file_tail;
pub mod json;
pub mod laws;
pub mod row_laws;
pub mod rpc;
pub mod session_file;

verus! {

/// The built-in templates.
pub open spec fn defaults() -> ConfigView {
    ConfigView {
        command: "pi"@,
        headless_args: Some(seq!["--mode"@, "rpc"@, "--session-id"@, "{session_id}"@]),
        run_args: Some(seq!["--mode"@, "rpc"@, "--provider"@, "{provider}"@, "--model"@, "{model}"@, "--session-id"@, "{session_id}"@]),
        resume_args: Some(seq!["--session"@, "{session_id}"@]),
        interactive_model_args: Some(seq!["--provider"@, "{provider}"@, "--model"@, "{model}"@]),
        prompt_args: Some(seq!["{prompt}"@]),
        ..config::blank_config()
    }
}

/// The built-in templates.
pub fn base_config() -> (base: AgentConfig)
    ensures
        base@ == defaults(),
{
    let headless_args = ["--mode", "rpc", "--session-id", "{session_id}"];
    let run_args = ["--mode", "rpc", "--provider", "{provider}", "--model", "{model}", "--session-id", "{session_id}"];
    let resume_args = ["--session", "{session_id}"];
    let interactive_model_args = ["--provider", "{provider}", "--model", "{model}"];
    let prompt_args = ["{prompt}"];
    assert(headless_args@.map_values(|p: &str| p@) == defaults().headless_args->0);
    assert(run_args@.map_values(|p: &str| p@) == defaults().run_args->0);
    assert(resume_args@.map_values(|p: &str| p@) == defaults().resume_args->0);
    assert(interactive_model_args@.map_values(|p: &str| p@) == defaults().interactive_model_args->0);
    assert(prompt_args@.map_values(|p: &str| p@) == defaults().prompt_args->0);
    AgentConfig {
        command: "pi".to_owned(),
        headless_args: Some(texts(&headless_args)),
        run_args: Some(texts(&run_args)),
        resume_args: Some(texts(&resume_args)),
        interactive_model_args: Some(texts(&interactive_model_args)),
        prompt_args: Some(texts(&prompt_args)),
        ..AgentConfig::default()
    }
}

/// What the agent can do with these templates.
pub open spec fn capabilities(cfg: ConfigView) -> AgentCapabilities {
    AgentCapabilities {
        reports_state: true,
        permission_channel: true,
        ..configurable::capabilities_of(cfg)
    }
}

/// The arguments of an unattended run: the protocol, the model where one is chosen,
/// and the session where one is named.
pub open spec fn rpc_args(ctx: ContextView) -> Seq<Seq<char>> {
    seq!["--mode"@, "rpc"@] + (match ctx.model {
        Some(model) => seq![
            "--provider"@,
            configurable::or_blank(ctx.provider),
            "--model"@,
            model,
        ],
        None => Seq::empty(),
    }) + (match ctx.session_id {
        Some(id) => seq!["--session-id"@, id],
        None => Seq::empty(),
    })
}

/// What pi runs. An unattended run takes its prompt over the protocol, never as an
/// argument, and its stdin stays open.
pub open spec fn planned(
    id: Seq<char>,
    cfg: ConfigView,
    invocation: Invocation,
    ctx: ContextView,
) -> Result<CommandView, LaunchErrorView> {
    if invocation is Headless {
        if text::trimmed(cfg.command).len() == 0 {
            Err(LaunchErrorView::NoCommand { agent: id })
        } else {
            Ok(
                configurable::launch(
                    cfg,
                    ctx,
                    rpc_args(ctx),
                    None,
                    false,
                    SubmitStrategy::Never,
                ),
            )
        }
    } else {
        configurable::planned(id, cfg, invocation, ctx)
    }
}

/// The pi agent.
#[derive(Debug)]
pub struct PiAgent {
    pub template: TemplateAgent,
}

/// How a launch of pi is observed.
#[derive(Debug, PartialEq, Eq)]
pub enum PiSource {
    Rpc(PiRpcSource),
    SessionFile(PiSessionFileSource),
}

/// The result of reading a run's output: done, or stopped before two costs that are
/// to be compared.
#[derive(Debug, PartialEq, Eq)]
pub enum PiReading {
    Done(AgentRunResult),
    /// Whether the first cost is not below the second decides how reading goes on.
    Asks(Option<Cost>, Option<Cost>),
}

/// [`PiReading`] over mathematical values.
pub enum ReadingView {
    Done(ResultView),
    Asks(Option<Cost>, Option<Cost>),
}

impl View for PiReading {
    type V = ReadingView;

    open spec fn view(&self) -> ReadingView {
        match *self {
            PiReading::Done(result) => ReadingView::Done(result@),
            PiReading::Asks(total, counted) => ReadingView::Asks(total, counted),
        }
    }
}

/// What a stopped parser asks.
pub open spec fn asks(state: PiState) -> ReadingView {
    ReadingView::Asks(state.question->0.cost_usd, state.emitted_usage.cost_usd)
}

/// Where reading stands once the questions of the lines so far are answered in
/// order, as far as `verdicts` go: the state, the bytes that are left, and the
/// verdicts that are left.
pub open spec fn answered(state: PiState, rest: Seq<u8>, verdicts: Seq<bool>) -> (
    PiState,
    Seq<u8>,
    Seq<bool>,
)
    decreases verdicts.len(),
{
    if state.question is Some && verdicts.len() > 0 {
        let (next, left) = lines::read_lines::<PiJsonlParser>(state.judged(verdicts[0]), rest);
        answered(next, left, verdicts.skip(1))
    } else {
        (state, rest, verdicts)
    }
}

/// What a finished run came to, where the costs in it compare as `verdicts` say.
pub open spec fn parsed_output(
    raw: Seq<char>,
    exit_code: Option<i32>,
    verdicts: Seq<bool>,
) -> ReadingView {
    let (first, rest) = lines::read_lines::<PiJsonlParser>(
        PiState::start(false),
        configurable::bytes_of(raw),
    );
    let (state, left, more) = answered(first, rest, verdicts);
    if state.question is Some {
        asks(state)
    } else {
        let end = state.ended(left, exit_code);
        if end.question is Some && more.len() == 0 {
            asks(end)
        } else {
            let done = if end.question is Some {
                (PiState { concluding: None, ..end.judged(more[0]) }).concluded(exit_code)
            } else {
                end
            };
            ReadingView::Done(configurable::summary_result(raw, exit_code, done.summary))
        }
    }
}

fn ask(parser: &PiJsonlParser) -> (reading: PiReading)
    requires
        parser@.question is Some,
    ensures
        reading@ == asks(parser@),
{
    match parser.question() {
        Some((total, counted)) => PiReading::Asks(total, counted),
        None => PiReading::Asks(None, None),
    }
}

impl PiAgent {
    /// The agent for the entry `name`: the built-in templates under `overrides`.
    pub fn from_config(name: &str, overrides: &AgentConfig) -> (agent: PiAgent)
        ensures
            agent.template.config@ == configurable::overlaid(defaults(), overrides@),
            agent.template.descriptor@ == (DescriptorView {
                id: name@,
                name: "Pi"@,
                command: agent.template.config@.command,
                available: true,
                capabilities: capabilities(agent.template.config@),
            }),
            agent::opt_probe(agent.template.probe)
                == agent.template.config@.session_id_json_key,
    {
        let mut config = base_config();
        overlay(&mut config, overrides);
        let mut template = TemplateAgent::new(name, "Pi", config);
        // Unattended runs report their state and answer dialogs over the protocol.
        template.descriptor.capabilities.reports_state = true;
        template.descriptor.capabilities.permission_channel = true;
        PiAgent { template }
    }

    fn rpc_arguments(&self, ctx: &AgentContext) -> (args: Vec<String>)
        ensures
            text::views(args@) == rpc_args(ctx@),
    {
        let first = ["--mode", "rpc"];
        let mut args = texts(&first);
        assert(text::views(args@) == seq!["--mode"@, "rpc"@]);
        if let Some(model) = &ctx.model {
            push_text(&mut args, "--provider".to_owned());
            push_text(&mut args, configurable::text_or_blank(&ctx.provider).to_owned());
            push_text(&mut args, "--model".to_owned());
            push_text(&mut args, model.clone());
        }
        let ghost so_far = text::views(args@);
        if let Some(session_id) = &ctx.session_id {
            push_text(&mut args, "--session-id".to_owned());
            push_text(&mut args, session_id.clone());
            assert(text::views(args@) == so_far + seq!["--session-id"@, session_id@]);
        }
        args
    }

    /// The command of a launch.
    pub fn command(&self, invocation: &Invocation<'_>, ctx: &AgentContext) -> (plan: Result<
        CommandSpec,
        LaunchError,
    >)
        ensures
            configurable::plan_view(plan) == planned(
                self.template.descriptor@.id,
                self.template.config@,
                *invocation,
                ctx@,
            ),
    {
        if let Invocation::Headless { .. } = invocation {
            if trim(self.template.config.command.as_str()).is_empty() {
                return Err(
                    LaunchError::NoCommand { agent: self.template.descriptor.id.clone() },
                );
            }
            let args = self.rpc_arguments(ctx);
            return Ok(self.template.finish(ctx, args, None, false, SubmitStrategy::Never));
        }
        self.template.command(invocation, ctx)
    }

    /// How a launch is observed: an unattended run over the protocol, where its
    /// arguments chose it; a session at a terminal by its file, where its working
    /// directory is known.
    pub fn state_source(&self, cfg: &StateSourceConfig) -> (source: Option<PiSource>)
        ensures
            source == if cfg.headless {
                if state::has_pair(text::views(cfg.args@), "--mode"@, "rpc"@) {
                    Some(PiSource::Rpc(PiRpcSource {  }))
                } else {
                    None
                }
            } else if cfg.cwd is Some {
                Some(PiSource::SessionFile(PiSessionFileSource { root: None }))
            } else {
                None
            },
    {
        if cfg.headless && find_pair(&cfg.args, "--mode", "rpc") {
            return Some(PiSource::Rpc(PiRpcSource::new()));
        }
        if !cfg.headless && cfg.cwd.is_some() {
            Some(PiSource::SessionFile(PiSessionFileSource::new()))
        } else {
            None
        }
    }

    /// What a finished run came to. The costs that reading has to compare compare as
    /// `verdicts` say, in order; where they run out, the next question is returned.
    pub fn parse_output(&self, raw: &str, exit_code: Option<i32>, verdicts: &Vec<bool>) -> (reading:
        PiReading)
        ensures
            reading@ == parsed_output(raw@, exit_code, verdicts@),
    {
        let mut parser = PiJsonlParser::new();
        parser.push(raw.as_bytes());
        proof {
            laws::lemma_lines_do_not_end(PiState::start(false), configurable::bytes_of(raw@));
        }
        let ghost goal = answered(parser@, parser.unread(), verdicts@);
        let mut i: usize = 0;
        assert(verdicts@.skip(0) == verdicts@);
        while i < verdicts.len() && parser.question().is_some()
            invariant
                i <= verdicts@.len(),
                parser@.concluding is None,
                !parser@.finished,
                answered(parser@, parser.unread(), verdicts@.skip(i as int)) == goal,
            decreases verdicts@.len() - i,
        {
            assert(verdicts@.skip(i as int).skip(1) == verdicts@.skip(i + 1));
            proof {
                laws::lemma_lines_do_not_end(
                    parser@.judged(verdicts@[i as int]),
                    parser.unread(),
                );
            }
            parser.answer(verdicts[i]);
            i += 1;
        }
        if parser.question().is_some() {
            return ask(&parser);
        }
        assert(goal == (parser@, parser.unread(), verdicts@.skip(i as int)));
        parser.finish(exit_code);
        if parser.question().is_some() {
            if i >= verdicts.len() {
                return ask(&parser);
            }
            assert(verdicts@.skip(i as int)[0] == verdicts@[i as int]);
            parser.answer(verdicts[i]);
        }
        PiReading::Done(summarized(raw, exit_code, parser.summary()))
    }

    /// Whether sessions have titles.
    pub fn has_session_titles(&self) -> (has: bool)
        ensures
            has,
    {
        true
    }

    /// The file with the title of a session, of those listed in its directories.
    pub fn session_file(&self, listed: Option<&Vec<SessionFile>>, session_id: &str) -> (path: Option<
        String,
    >)
        ensures
            match path {
                Some(path) => listed is Some && exists|i: int|
                    #[trigger] session_file::newest_named(listed->0@, session_id@, i) && path@
                        == listed->0@[i].path@,
                None => listed is Some ==> forall|i: int|
                    0 <= i < listed->0@.len() ==> !session_file::has_suffix(
                        #[trigger] listed->0@[i].name@,
                        session_file::file_suffix(session_id@),
                    ),
            },
    {
        find_session_file(listed, session_id)
    }

    /// The title of a session, from what its file holds.
    pub fn session_title(&self, data: &[u8]) -> (title: Option<String>)
        ensures
            model::opt_text(title) == session_file::session_name(data@),
    {
        read_session_name(data)
    }
}

/// An unattended run is given its prompt over the protocol alone: none of its
/// arguments depends on the prompt, and nothing waits on stdin.
pub proof fn law_headless_prompt_stays_off_the_command_line(
    id: Seq<char>,
    cfg: ConfigView,
    invocation: Invocation,
    ctx: ContextView,
    prompt: Option<Seq<char>>,
)
    requires
        invocation is Headless,
    ensures
        planned(id, cfg, invocation, ctx) == planned(
            id,
            cfg,
            invocation,
            ContextView { prompt, ..ctx },
        ),
        planned(id, cfg, invocation, ctx) is Ok ==> planned(id, cfg, invocation, ctx)->Ok_0.stdin_prompt is None
            && !planned(id, cfg, invocation, ctx)->Ok_0.stdin_eof,
{
}

/// A launch of an unattended run is one that the state source recognizes.
pub proof fn law_headless_speaks_rpc(ctx: ContextView)
    ensures
        state::has_pair(rpc_args(ctx), "--mode"@, "rpc"@),
{
    assert(rpc_args(ctx)[0] == "--mode"@);
    assert(rpc_args(ctx)[1] == "rpc"@);
}

} // verus!
