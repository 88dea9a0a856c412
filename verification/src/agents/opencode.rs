//! The opencode agent.
//!
//! Sessions run on a server that the daemon starts itself, where it can be had: a
//! launch is then pointed at a session that was created before.
use crate::agents::agent;
use crate::agents::agent::{
    copy_probe, AgentCapabilities, AgentContext, AgentRunResult, CommandSpec, CommandView,
    ContextView, DescriptorView, Invocation, LaunchError, LaunchErrorView, ResultView,
};
use crate::agents::configurable;
use crate::agents::configurable::{overlay, summarized, TemplateAgent};
use crate::agents::detect;
use crate::agents::detect::{contents_of, opencode_awaiting_input};
use crate::agents::opencode::json::{OpenCodeJsonlParser, OpenCodeState};
use crate::agents::opencode::observer::OpenCodeServer;
use crate::agents::opencode::server::{create_session_body, Endpoint, EndpointView};
use crate::agents::state::StateSourceConfig;
use crate::config;
use crate::config::{AgentConfig, ConfigView};
use crate::json as tree;
use crate::json::{parse, read_str, Json, JsonView};
use crate::lines;
use crate::model;
use crate::model::{copy_text, AwaitingInputReason};
use crate::text;
use crate::text::{push_text, str_eq, texts, trim};
use vstd::prelude::*;

pub mod event_laws;
pub mod json;
pub mod laws;
pub mod observer;
pub mod row_laws;
pub mod server;
pub mod server_laws;

verus! {

/// The variable that carries the server's password.
pub const PASSWORD_ENV: &'static str = "OPENCODE_SERVER_PASSWORD";

/// The built-in templates.
pub open spec fn defaults() -> ConfigView {
    ConfigView {
        command: "opencode"@,
        headless_args: Some(seq!["run"@, "--auto"@, "{prompt}"@]),
        run_args: Some(seq!["run"@, "--model"@, "{provider}/{model}"@, "--auto"@, "--format"@, "json"@, "{prompt}"@]),
        resume_args: Some(seq!["--session"@, "{session_id}"@]),
        interactive_model_args: Some(seq!["mini"@, "--model"@, "{provider}/{model}"@]),
        prompt_args: Some(seq!["--prompt"@, "{prompt}"@]),
        session_id_json_key: Some("sessionID"@),
        submit_prompt: Some(true),
        ..config::blank_config()
    }
}

/// The built-in templates.
pub fn base_config() -> (base: AgentConfig)
    ensures
        base@ == defaults(),
{
    let headless_args = ["run", "--auto", "{prompt}"];
    let run_args = ["run", "--model", "{provider}/{model}", "--auto", "--format", "json", "{prompt}"];
    let resume_args = ["--session", "{session_id}"];
    let interactive_model_args = ["mini", "--model", "{provider}/{model}"];
    let prompt_args = ["--prompt", "{prompt}"];
    assert(headless_args@.map_values(|p: &str| p@) == defaults().headless_args->0);
    assert(run_args@.map_values(|p: &str| p@) == defaults().run_args->0);
    assert(resume_args@.map_values(|p: &str| p@) == defaults().resume_args->0);
    assert(interactive_model_args@.map_values(|p: &str| p@) == defaults().interactive_model_args->0);
    assert(prompt_args@.map_values(|p: &str| p@) == defaults().prompt_args->0);
    AgentConfig {
        command: "opencode".to_owned(),
        headless_args: Some(texts(&headless_args)),
        run_args: Some(texts(&run_args)),
        resume_args: Some(texts(&resume_args)),
        interactive_model_args: Some(texts(&interactive_model_args)),
        prompt_args: Some(texts(&prompt_args)),
        session_id_json_key: Some("sessionID".to_owned()),
        submit_prompt: Some(true),
        ..AgentConfig::default()
    }
}

/// What the agent can do with these templates.
pub open spec fn capabilities(cfg: ConfigView) -> AgentCapabilities {
    AgentCapabilities {
        providers: true,
        reports_state: true,
        permission_channel: true,
        concurrent_attach: true,
        ..configurable::capabilities_of(cfg)
    }
}

/// The arguments that point a launch at a server, and at a session where one is
/// named.
pub open spec fn server_args(url: Seq<char>, session: Option<Seq<char>>) -> Seq<Seq<char>> {
    seq!["--server"@, url] + (match session {
        Some(id) => seq!["--session"@, id],
        None => Seq::empty(),
    })
}

/// Where those arguments go: behind a subcommand that leads, else to the front.
pub open spec fn server_args_at(args: Seq<Seq<char>>) -> int {
    if args.len() > 0 && (args[0] == "mini"@ || args[0] == "run"@) {
        1
    } else {
        0
    }
}

/// `args` pointed at a server.
pub open spec fn pointed(
    args: Seq<Seq<char>>,
    url: Seq<char>,
    session: Option<Seq<char>>,
) -> Seq<Seq<char>> {
    let at = server_args_at(args);
    args.take(at) + server_args(url, session) + args.skip(at)
}

/// Points `args` at a server, and at a session where one is named.
pub fn insert_server_args(args: &mut Vec<String>, endpoint: &Endpoint, session_id: Option<&str>)
    ensures
        text::views(final(args)@) == pointed(
            text::views(old(args)@),
            endpoint@.url,
            tree::opt_str(session_id),
        ),
{
    let ghost before = text::views(args@);
    let at: usize = if args.len() > 0 && (str_eq(args[0].as_str(), "mini") || str_eq(
        args[0].as_str(),
        "run",
    )) {
        1
    } else {
        0
    };
    assert(args@.len() > 0 ==> before[0] == args@[0]@);
    let mut rest = args.split_off(at);
    let ghost back = rest@;
    assert(text::views(args@) == before.take(at as int));
    assert(text::views(back) == before.skip(at as int));
    push_text(args, "--server".to_owned());
    push_text(args, endpoint.url.clone());
    if let Some(id) = session_id {
        push_text(args, "--session".to_owned());
        push_text(args, id.to_owned());
    }
    let ghost front = args@;
    assert(text::views(front) == before.take(at as int) + server_args(
        endpoint@.url,
        tree::opt_str(session_id),
    ));
    args.append(&mut rest);
    assert(text::views(args@) == text::views(front) + text::views(back));
}

/// The arguments of a launch stand in their order around those of the server.
pub proof fn law_server_args_only_add(
    args: Seq<Seq<char>>,
    url: Seq<char>,
    session: Option<Seq<char>>,
)
    ensures
        pointed(args, url, session).len() == args.len() + server_args(url, session).len(),
        ({
            let at = server_args_at(args);
            let n = server_args(url, session).len() as int;
            let all = pointed(args, url, session);
            all.take(at) + all.skip(at + n) == args
        }),
{
    let at = server_args_at(args);
    let n = server_args(url, session).len() as int;
    let all = pointed(args, url, session);
    assert(all.take(at) + all.skip(at + n) =~= args);
}

/// A launch that is pointed at a server.
pub open spec fn attached(
    spec: CommandView,
    ep: EndpointView,
    session: Option<Seq<char>>,
) -> CommandView {
    CommandView {
        args: pointed(spec.args, ep.url, session),
        env: spec.env.insert(PASSWORD_ENV@, ep.password),
        ..spec
    }
}

/// What opencode runs. With a server, a fresh session at a terminal attaches to the
/// session that was created for it; a resumed one to its own; an unattended run only
/// to a session that was created on the server.
pub open spec fn planned(
    id: Seq<char>,
    cfg: ConfigView,
    invocation: Invocation,
    ctx: ContextView,
    endpoint: Option<EndpointView>,
) -> Result<CommandView, LaunchErrorView> {
    match (configurable::planned(id, cfg, invocation, ctx), endpoint) {
        (Ok(spec), Some(ep)) => match invocation {
            Invocation::Interactive { .. } => if ctx.session_id is Some {
                Ok(attached(spec, ep, ctx.session_id))
            } else {
                Ok(spec)
            },
            Invocation::Resume(_) => Ok(attached(spec, ep, None)),
            Invocation::Headless { .. } => if ctx.managed_session && ctx.session_id is Some {
                Ok(attached(spec, ep, ctx.session_id))
            } else {
                Ok(spec)
            },
        },
        (plan, _) => plan,
    }
}

/// Without a server a launch is what the templates say.
pub proof fn law_without_server_templates_decide(
    id: Seq<char>,
    cfg: ConfigView,
    invocation: Invocation,
    ctx: ContextView,
)
    ensures
        planned(id, cfg, invocation, ctx, None) == configurable::planned(id, cfg, invocation, ctx),
{
}

/// An unattended run is never pointed at a session that the server does not know.
pub proof fn law_unmanaged_run_stays_plain(
    id: Seq<char>,
    cfg: ConfigView,
    invocation: Invocation,
    ctx: ContextView,
    endpoint: Option<EndpointView>,
)
    requires
        invocation is Headless,
        !ctx.managed_session,
    ensures
        planned(id, cfg, invocation, ctx, endpoint) == configurable::planned(
            id,
            cfg,
            invocation,
            ctx,
        ),
{
}

/// The opencode agent.
#[derive(Debug)]
pub struct OpenCodeAgent {
    pub template: TemplateAgent,
}

impl OpenCodeAgent {
    /// The agent for the entry `name`: the built-in templates under `overrides`.
    pub fn from_config(name: &str, overrides: &AgentConfig) -> (agent: OpenCodeAgent)
        ensures
            agent.template.config@ == configurable::overlaid(defaults(), overrides@),
            agent.template.descriptor@ == (DescriptorView {
                id: name@,
                name: "OpenCode"@,
                command: agent.template.config@.command,
                available: true,
                capabilities: capabilities(agent.template.config@),
            }),
            agent::opt_probe(agent.template.probe)
                == agent.template.config@.session_id_json_key,
    {
        let mut config = base_config();
        overlay(&mut config, overrides);
        let mut template = TemplateAgent::new(name, "OpenCode", config);
        template.descriptor.capabilities.providers = true;
        // The server reports the state of its sessions and takes answers.
        template.descriptor.capabilities.reports_state = true;
        template.descriptor.capabilities.permission_channel = true;
        // Unattended runs go through the server too, so a terminal can join them.
        template.descriptor.capabilities.concurrent_attach = true;
        OpenCodeAgent { template }
    }

    /// The command of a launch, with the server where there is one.
    pub fn command(
        &self,
        invocation: &Invocation<'_>,
        ctx: &AgentContext,
        endpoint: &Option<Endpoint>,
    ) -> (plan: Result<CommandSpec, LaunchError>)
        ensures
            configurable::plan_view(plan) == planned(
                self.template.descriptor@.id,
                self.template.config@,
                *invocation,
                ctx@,
                server::opt_endpoint(*endpoint),
            ),
    {
        let mut spec = match self.template.command(invocation, ctx) {
            Ok(spec) => spec,
            Err(error) => {
                return Err(error);
            },
        };
        if let Some(ep) = endpoint {
            match invocation {
                Invocation::Interactive { .. } => {
                    if let Some(id) = &ctx.session_id {
                        insert_server_args(&mut spec.args, ep, Some(id.as_str()));
                        spec.env.insert(PASSWORD_ENV.to_owned(), ep.password.clone());
                    }
                },
                Invocation::Resume(_) => {
                    // The template names the session already.
                    insert_server_args(&mut spec.args, ep, None);
                    spec.env.insert(PASSWORD_ENV.to_owned(), ep.password.clone());
                },
                Invocation::Headless { .. } => {
                    if ctx.managed_session {
                        if let Some(id) = &ctx.session_id {
                            insert_server_args(&mut spec.args, ep, Some(id.as_str()));
                            spec.env.insert(PASSWORD_ENV.to_owned(), ep.password.clone());
                        }
                    }
                },
            }
        }
        Ok(spec)
    }

    /// Whether sessions have titles.
    pub fn has_session_titles(&self) -> (has: bool)
        ensures
            has,
    {
        true
    }

    /// The arguments that list the sessions.
    pub fn title_args(&self, endpoint: &Option<Endpoint>) -> (args: Vec<String>)
        ensures
            text::views(args@) == seq!["session"@, "list"@] + (match *endpoint {
                Some(ep) => seq!["--server"@, ep@.url],
                None => Seq::empty(),
            }) + seq!["--format"@, "json"@],
    {
        let head = ["session", "list"];
        let mut args = texts(&head);
        assert(text::views(args@) == seq!["session"@, "list"@]);
        if let Some(ep) = endpoint {
            push_text(&mut args, "--server".to_owned());
            push_text(&mut args, ep.url.clone());
        }
        let ghost front = text::views(args@);
        push_text(&mut args, "--format".to_owned());
        push_text(&mut args, "json".to_owned());
        assert(text::views(args@) == front + seq!["--format"@, "json"@]);
        args
    }

    /// The title of a session, from what the listing printed; nothing where it
    /// failed.
    pub fn session_title(&self, succeeded: bool, stdout: &[u8], session_id: &str) -> (title: Option<
        String,
    >)
        ensures
            model::opt_text(title) == if succeeded {
                title_in(lines::lossy_text(stdout@), session_id@)
            } else {
                None
            },
    {
        if !succeeded {
            return None;
        }
        session_title_from_json(lines::decode_lossy(stdout).as_str(), session_id)
    }

    /// What a finished run came to.
    pub fn parse_output(&self, raw: &str, exit_code: Option<i32>) -> (result: AgentRunResult)
        ensures
            result@ == parsed_output(agent::opt_probe(self.template.probe), raw@, exit_code),
    {
        let mut parser = OpenCodeJsonlParser::new(copy_probe(&self.template.probe));
        parser.push(raw.as_bytes());
        parser.finish(exit_code);
        summarized(raw, exit_code, parser.summary())
    }

    /// What the session waits for with this screen.
    pub fn awaiting_input(&self, screen: &vt100::Screen) -> (why: Option<AwaitingInputReason>)
        ensures
            model::opt_reason(why) == detect::opencode_waits(detect::screen_text(*screen)),
    {
        opencode_awaiting_input(contents_of(screen).as_str())
    }

    /// How a launch is observed: over the server, where there is one. An unattended
    /// run that has no session there is read by its output.
    pub fn state_source(&self, cfg: &StateSourceConfig, endpoint: &Option<Endpoint>) -> (source: Option<
        OpenCodeServer,
    >)
        ensures
            source is Some <==> endpoint is Some && (!cfg.headless || cfg.managed_session),
            source is Some ==> source->0.endpoint@ == endpoint->0@,
    {
        if cfg.headless && !cfg.managed_session {
            return None;
        }
        match endpoint {
            Some(ep) => Some(OpenCodeServer::new(ep.clone())),
            None => None,
        }
    }

    /// Prepares a launch, and says whether a session is to be created for it. A
    /// resumed session has one. The id of an unattended run has to come from the
    /// server, so that of the caller is dropped.
    pub fn prepare_launch(&self, invocation: &Invocation<'_>, ctx: &mut AgentContext) -> (create:
        bool)
        ensures
            create == !(invocation is Resume),
            final(ctx)@ == if invocation is Headless {
                ContextView { session_id: None, managed_session: false, ..old(ctx)@ }
            } else {
                old(ctx)@
            },
    {
        match invocation {
            Invocation::Interactive { .. } => true,
            Invocation::Headless { .. } => {
                ctx.session_id = None;
                ctx.managed_session = false;
                true
            },
            Invocation::Resume(_) => false,
        }
    }

    /// The body that asks the server for a session; nothing where the launch has no
    /// working directory. A model goes with its provider or not at all.
    pub fn session_request(&self, ctx: &AgentContext) -> (body: Option<String>)
        ensures
            model::opt_text(body) == match ctx@.cwd {
                Some(dir) => Some(
                    tree::written(server::session_request(dir, chosen_model(ctx@))),
                ),
                None => None,
            },
    {
        let chosen = match (&ctx.model, &ctx.provider) {
            (Some(model), Some(provider)) => Some((model.as_str(), provider.as_str())),
            _ => None,
        };
        match &ctx.cwd {
            Some(dir) => Some(create_session_body(dir.as_str(), chosen)),
            None => None,
        }
    }

    /// Takes the session that the server created. Returns the prompt that is to seed
    /// it: an unattended run submits its own.
    pub fn session_created(&self, headless: bool, session_id: &str, ctx: &mut AgentContext) -> (seed:
        Option<String>)
        ensures
            final(ctx)@ == (ContextView {
                session_id: Some(session_id@),
                managed_session: true,
                ..old(ctx)@
            }),
            model::opt_text(seed) == if headless {
                None
            } else {
                old(ctx)@.prompt
            },
    {
        ctx.session_id = Some(session_id.to_owned());
        ctx.managed_session = true;
        if headless {
            None
        } else {
            copy_text(&ctx.prompt)
        }
    }

    /// The session was seeded: the prompt is not to be typed again.
    pub fn prompt_seeded(&self, ctx: &mut AgentContext)
        ensures
            final(ctx)@ == (ContextView { prompt: None, ..old(ctx)@ }),
    {
        ctx.prompt = None;
    }

    /// The arguments that ask for the sessions of the server.
    pub fn turn_args(&self, endpoint: &Option<Endpoint>) -> (args: Vec<String>)
        ensures
            text::views(args@) == seq!["api"@] + (match *endpoint {
                Some(ep) => seq!["--server"@, ep@.url],
                None => Seq::empty(),
            }) + seq!["GET"@, "/api/session"@],
    {
        let head = ["api"];
        let mut args = texts(&head);
        assert(text::views(args@) == seq!["api"@]);
        if let Some(ep) = endpoint {
            push_text(&mut args, "--server".to_owned());
            push_text(&mut args, ep.url.clone());
        }
        let ghost front = text::views(args@);
        push_text(&mut args, "GET".to_owned());
        push_text(&mut args, "/api/session".to_owned());
        assert(text::views(args@) == front + seq!["GET"@, "/api/session"@]);
        args
    }

    /// Whether the turn of the newest session in `cwd` since `since_ms` is done, and
    /// if so whether it succeeded, from what the server printed.
    pub fn interactive_turn_done(
        &self,
        succeeded: bool,
        stdout: &[u8],
        cwd: &str,
        since_ms: i64,
    ) -> (done: Option<bool>)
        ensures
            done == if succeeded {
                turn_done_in(lines::lossy_text(stdout@), cwd@, since_ms)
            } else {
                None
            },
    {
        if !succeeded {
            return None;
        }
        interactive_turn_done_from_json(lines::decode_lossy(stdout).as_str(), cwd, since_ms)
    }
}

/// The model that a session is created with.
pub open spec fn chosen_model(ctx: ContextView) -> Option<(Seq<char>, Seq<char>)> {
    match (ctx.model, ctx.provider) {
        (Some(model), Some(provider)) => Some((model, provider)),
        _ => None,
    }
}

/// What rows on stdout come to.
pub open spec fn stream_end(
    probe: Option<Seq<char>>,
    raw: Seq<char>,
    exit_code: Option<i32>,
) -> OpenCodeState {
    let (state, rest) = lines::read_lines::<OpenCodeJsonlParser>(
        OpenCodeState::start(probe),
        configurable::bytes_of(raw),
    );
    state.ended(rest, exit_code)
}

/// What a finished run came to.
pub open spec fn parsed_output(
    probe: Option<Seq<char>>,
    raw: Seq<char>,
    exit_code: Option<i32>,
) -> ResultView {
    configurable::summary_result(raw, exit_code, stream_end(probe, raw, exit_code).summary)
}

/// When a session was created, in milliseconds since the epoch.
pub open spec fn created_ms(session: JsonView) -> i64 {
    match session.get2("time"@, "created"@) {
        Some(value) => match value.as_i64() {
            Some(ms) => ms,
            None => i64::MIN,
        },
        None => i64::MIN,
    }
}

/// Whether a session was created in `cwd` at or after `since_ms`.
pub open spec fn is_recent(session: JsonView, cwd: Seq<char>, since_ms: i64) -> bool {
    tree::str_of(session.get2("location"@, "directory"@)) == Some(cwd) && created_ms(session)
        >= since_ms
}

/// The newest such session; of several, the last listed.
pub open spec fn newest_session(
    sessions: Seq<JsonView>,
    cwd: Seq<char>,
    since_ms: i64,
) -> Option<JsonView>
    decreases sessions.len(),
{
    if sessions.len() == 0 {
        None
    } else {
        let before = newest_session(sessions.drop_last(), cwd, since_ms);
        let last = sessions.last();
        if is_recent(last, cwd, since_ms) && (before is Some ==> created_ms(last) >= created_ms(
            before->0,
        )) {
            Some(last)
        } else {
            before
        }
    }
}

/// Whether the turn of that session is done, and if so whether it succeeded.
pub open spec fn turn_done_in(raw: Seq<char>, cwd: Seq<char>, since_ms: i64) -> Option<bool> {
    match tree::parsed_text(raw) {
        Some(response) => match tree::items_of(response.get("data"@)) {
            Some(sessions) => match newest_session(sessions, cwd, since_ms) {
                Some(session) => match tree::str_of(session.get("outcome"@)) {
                    Some(outcome) => Some(outcome == "succeeded"@),
                    None => None,
                },
                None => None,
            },
            None => None,
        },
        None => None,
    }
}

fn read_created(session: &Json) -> (ms: i64)
    ensures
        ms == created_ms(session@),
{
    match session.get2("time", "created") {
        Some(value) => match value.as_i64() {
            Some(ms) => ms,
            None => i64::MIN,
        },
        None => i64::MIN,
    }
}

/// Whether the turn of the newest session in `cwd` since `since_ms` is done, and if
/// so whether it succeeded. A session of an earlier run in the same directory cannot
/// be mistaken for this one.
pub fn interactive_turn_done_from_json(raw: &str, cwd: &str, since_ms: i64) -> (done: Option<bool>)
    ensures
        done == turn_done_in(raw@, cwd@, since_ms),
{
    let response = match parse(raw) {
        Some(response) => response,
        None => {
            return None;
        },
    };
    let data = match response.get("data") {
        Some(data) => data.as_array(),
        None => None,
    };
    let sessions = match data {
        Some(sessions) => sessions,
        None => {
            return None;
        },
    };
    let ghost all = tree::json_views(sessions@);
    let mut best: Option<usize> = None;
    let mut i: usize = 0;
    assert(all.take(0).len() == 0);
    while i < sessions.len()
        invariant
            i <= sessions@.len(),
            all == tree::json_views(sessions@),
            match best {
                Some(b) => b < i && newest_session(all.take(i as int), cwd@, since_ms) == Some(
                    all[b as int],
                ),
                None => newest_session(all.take(i as int), cwd@, since_ms) is None,
            },
        decreases sessions@.len() - i,
    {
        assert(all.take(i + 1).drop_last() == all.take(i as int));
        assert(all.take(i + 1).last() == sessions@[i as int]@);
        let here = match read_str(sessions[i].get2("location", "directory")) {
            Some(dir) => str_eq(dir, cwd),
            None => false,
        };
        if here && read_created(&sessions[i]) >= since_ms {
            let better = match best {
                Some(b) => {
                    assert(all[b as int] == sessions@[b as int]@);
                    read_created(&sessions[i]) >= read_created(&sessions[b])
                },
                None => true,
            };
            if better {
                best = Some(i);
            }
        }
        i += 1;
    }
    assert(all.take(i as int) == all);
    match best {
        Some(b) => {
            assert(all[b as int] == sessions@[b as int]@);
            match read_str(sessions[b].get("outcome")) {
                Some(outcome) => Some(str_eq(outcome, "succeeded")),
                None => None,
            }
        },
        None => None,
    }
}

/// The chosen session is recent, and none that is recent is newer.
pub proof fn law_chosen_session_is_the_newest(
    sessions: Seq<JsonView>,
    cwd: Seq<char>,
    since_ms: i64,
    i: int,
)
    requires
        0 <= i < sessions.len(),
        is_recent(sessions[i], cwd, since_ms),
    ensures
        newest_session(sessions, cwd, since_ms) is Some,
        is_recent(newest_session(sessions, cwd, since_ms)->0, cwd, since_ms),
        created_ms(sessions[i]) <= created_ms(newest_session(sessions, cwd, since_ms)->0),
    decreases sessions.len(),
{
    let before = sessions.drop_last();
    if i < before.len() {
        law_chosen_session_is_the_newest(before, cwd, since_ms, i);
    } else if newest_session(before, cwd, since_ms) is Some {
        lemma_newest_is_recent(before, cwd, since_ms);
    }
}

proof fn lemma_newest_is_recent(sessions: Seq<JsonView>, cwd: Seq<char>, since_ms: i64)
    ensures
        newest_session(sessions, cwd, since_ms) matches Some(session) ==> is_recent(
            session,
            cwd,
            since_ms,
        ),
    decreases sessions.len(),
{
    if sessions.len() > 0 {
        lemma_newest_is_recent(sessions.drop_last(), cwd, since_ms);
    }
}

/// The position of the first of `sessions` from `from` on with this id.
pub open spec fn session_at(sessions: Seq<JsonView>, id: Seq<char>, from: int) -> int
    decreases sessions.len() - from,
{
    if from < 0 || from >= sessions.len() {
        sessions.len() as int
    } else if tree::str_of(sessions[from].get("id"@)) == Some(id) {
        from
    } else {
        session_at(sessions, id, from + 1)
    }
}

/// The title of a session in a listing; a blank one is none.
pub open spec fn title_in(raw: Seq<char>, id: Seq<char>) -> Option<Seq<char>> {
    match tree::parsed_text(raw) {
        Some(JsonView::Array(sessions)) => {
            let at = session_at(sessions, id, 0);
            if at < sessions.len() {
                match tree::str_of(sessions[at].get("title"@)) {
                    Some(title) if text::trimmed(title).len() > 0 => Some(title),
                    _ => None,
                }
            } else {
                None
            }
        },
        _ => None,
    }
}

/// The title of a session in a listing.
pub fn session_title_from_json(raw: &str, session_id: &str) -> (title: Option<String>)
    ensures
        model::opt_text(title) == title_in(raw@, session_id@),
{
    let listing = match parse(raw) {
        Some(listing) => listing,
        None => {
            return None;
        },
    };
    let sessions = match listing.as_array() {
        Some(sessions) => sessions,
        None => {
            return None;
        },
    };
    let ghost all = tree::json_views(sessions@);
    let mut i: usize = 0;
    while i < sessions.len()
        invariant
            i <= sessions@.len(),
            all == tree::json_views(sessions@),
            listing@ == JsonView::Array(all),
            tree::parsed_text(raw@) == Some(listing@),
            session_at(all, session_id@, i as int) == session_at(all, session_id@, 0),
        decreases sessions@.len() - i,
    {
        assert(all[i as int] == sessions@[i as int]@);
        let found = match read_str(sessions[i].get("id")) {
            Some(id) => str_eq(id, session_id),
            None => false,
        };
        if found {
            return match read_str(sessions[i].get("title")) {
                Some(title) => {
                    if trim(title).is_empty() {
                        None
                    } else {
                        Some(title.to_owned())
                    }
                },
                None => None,
            };
        }
        i += 1;
    }
    None
}

/// The providers that opencode is signed in to.
#[derive(Debug, Clone, Copy, PartialEq, Eq, Structural)]
pub struct OpenCodeProviderSource {}

impl OpenCodeProviderSource {
    /// The address of the catalog: that of the environment, or else the usual one.
    pub fn catalog_url(&self, configured: Option<&str>, usual: &str) -> (url: String)
        ensures
            url@ == match configured {
                Some(url) => url@,
                None => usual@,
            },
    {
        match configured {
            Some(url) => url.to_owned(),
            None => usual.to_owned(),
        }
    }
}

} // verus!
