//! What every launch must be, whichever agent plans it.
use crate::agents::agent;
use crate::agents::agent::{
    AgentCapabilities, CommandView, ContextView, Invocation, LaunchErrorView, SubmitStrategy,
};
use crate::agents::configurable;
use crate::agents::opencode;
use crate::agents::opencode::server::EndpointView;
use crate::agents::pi;
use crate::agents::registry;
use crate::agents::registry::{AgentKind, AgentView};
use crate::config::ConfigView;
use crate::text;
use vstd::prelude::*;

verus! {

/// The text that a choice holds; nothing where there is none.
pub open spec fn chosen(choice: Option<Seq<char>>) -> Seq<char> {
    match choice {
        Some(s) => s,
        None => Seq::empty(),
    }
}

/// The directory of a launch: that of its context, else the configured one.
pub open spec fn directory(cfg: ConfigView, ctx: ContextView) -> Option<Seq<char>> {
    match ctx.cwd {
        Some(dir) => Some(dir),
        None => cfg.cwd,
    }
}

/// `arg` with the provider and the model of a context.
pub open spec fn with_model(arg: Seq<char>, ctx: ContextView) -> Seq<char> {
    text::replaced(
        text::replaced(arg, "{provider}"@, chosen(ctx.provider)),
        "{model}"@,
        chosen(ctx.model),
    )
}

/// `arg` with the prompt, the provider and the model of a context.
pub open spec fn with_prompt(arg: Seq<char>, ctx: ContextView) -> Seq<char> {
    with_model(text::replaced(arg, "{prompt}"@, chosen(ctx.prompt)), ctx)
}

/// `arg` with the session of a context.
pub open spec fn with_session(arg: Seq<char>, ctx: ContextView) -> Seq<char> {
    text::replaced(arg, "{session_id}"@, chosen(ctx.session_id))
}

/// Whether a template has a place for the prompt.
pub open spec fn has_prompt(template: Seq<Seq<char>>) -> bool {
    exists|i: int| 0 <= i < template.len() && text::occurs(#[trigger] template[i], "{prompt}"@)
}

/// The template that an interactive launch starts from: that for a chosen model, where
/// there is one, else the plain arguments.
pub open spec fn opening(cfg: ConfigView, ctx: ContextView) -> Seq<Seq<char>> {
    match (ctx.model, cfg.interactive_model_args) {
        (Some(_), Some(template)) => template,
        _ => cfg.args,
    }
}

/// The template of an unattended run: with a model it takes the one for chosen models.
pub open spec fn unattended(cfg: ConfigView, ctx: ContextView) -> Option<Seq<Seq<char>>> {
    match ctx.model {
        Some(_) => cfg.run_args,
        None => cfg.headless_args,
    }
}

/// Whether a command is blank.
pub open spec fn no_program(cfg: ConfigView) -> bool {
    forall|i: int| 0 <= i < cfg.command.len() ==> text::is_white(#[trigger] cfg.command[i])
}

proof fn lemma_blank(s: Seq<char>)
    ensures
        text::trimmed(s).len() == 0 <==> forall|i: int|
            0 <= i < s.len() ==> text::is_white(#[trigger] s[i]),
{
    lemma_blank_start(s);
    lemma_blank_end(text::trimmed_start(s));
    if text::trimmed(s).len() == 0 && text::trimmed_start(s).len() > 0 {
        let t = text::trimmed_start(s);
        assert(text::is_white(t[0]));
    }
}

proof fn lemma_blank_start(s: Seq<char>)
    ensures
        text::trimmed_start(s).len() == 0 <==> forall|i: int|
            0 <= i < s.len() ==> text::is_white(#[trigger] s[i]),
        text::trimmed_start(s).len() > 0 ==> !text::is_white(text::trimmed_start(s)[0]),
    decreases s.len(),
{
    if s.len() > 0 && text::is_white(s[0]) {
        let rest = s.skip(1);
        lemma_blank_start(rest);
        if forall|i: int| 0 <= i < rest.len() ==> text::is_white(#[trigger] rest[i]) {
            assert forall|i: int| 0 <= i < s.len() implies text::is_white(#[trigger] s[i]) by {
                if i > 0 {
                    assert(text::is_white(rest[i - 1]));
                }
            }
        }
        if forall|i: int| 0 <= i < s.len() ==> text::is_white(#[trigger] s[i]) {
            assert forall|i: int| 0 <= i < rest.len() implies text::is_white(
                #[trigger] rest[i],
            ) by {
                assert(text::is_white(s[i + 1]));
            }
        }
    }
}

proof fn lemma_blank_end(s: Seq<char>)
    ensures
        text::trimmed_end(s).len() == 0 ==> forall|i: int|
            0 <= i < s.len() ==> text::is_white(#[trigger] s[i]),
    decreases s.len(),
{
    if s.len() > 0 && text::is_white(s.last()) {
        let rest = s.drop_last();
        lemma_blank_end(rest);
        if text::trimmed_end(s).len() == 0 {
            assert forall|i: int| 0 <= i < s.len() implies text::is_white(#[trigger] s[i]) by {
                if i < rest.len() {
                    assert(text::is_white(rest[i]));
                }
            }
        }
    }
}

proof fn lemma_filled(arg: Seq<char>, ctx: ContextView)
    ensures
        agent::filled(arg, configurable::interactive_vars(ctx), 0) == with_model(arg, ctx),
        agent::filled(arg, configurable::prompt_vars(ctx), 0) == with_prompt(arg, ctx),
        agent::filled(arg, configurable::headless_vars(ctx), 0) == with_session(
            with_prompt(arg, ctx),
            ctx,
        ),
        agent::filled(arg, configurable::resume_vars(ctx), 0) == with_session(arg, ctx),
{
    reveal_with_fuel(agent::filled, 6);
}

/// Every planned command, of whichever agent and for whichever invocation, runs in the
/// directory of its context, and only without one in the configured directory. It runs the
/// configured program, and every configured variable reaches it but for the one that
/// carries a server's password.
pub proof fn law_launch_runs_where_it_is_told(
    agent: AgentView,
    invocation: Invocation,
    ctx: ContextView,
    endpoint: Option<EndpointView>,
)
    ensures
        ({
            let cfg = agent.config;
            registry::planned(agent, invocation, ctx, endpoint) matches Ok(spec) ==> {
                &&& ctx.cwd matches Some(dir) ==> spec.cwd == Some(dir)
                &&& ctx.cwd is None ==> spec.cwd == cfg.cwd
                &&& spec.program == cfg.command
                &&& forall|key: Seq<char>|
                    key != "OPENCODE_SERVER_PASSWORD"@ ==> #[trigger] spec.env.contains_key(key)
                        == cfg.env.contains_key(key)
                &&& forall|key: Seq<char>|
                    key != "OPENCODE_SERVER_PASSWORD"@ && cfg.env.contains_key(key)
                        ==> #[trigger] spec.env[key] == cfg.env[key]
                &&& endpoint is None || !(agent.kind is OpenCode) ==> spec.env == cfg.env
            }
        }),
{
}

/// The same directory holds for a plan by templates alone.
pub proof fn law_template_runs_where_it_is_told(
    id: Seq<char>,
    cfg: ConfigView,
    invocation: Invocation,
    ctx: ContextView,
)
    ensures
        configurable::planned(id, cfg, invocation, ctx) matches Ok(spec) ==> {
            &&& ctx.cwd matches Some(dir) ==> spec.cwd == Some(dir)
            &&& ctx.cwd is None ==> spec.cwd == cfg.cwd
            &&& spec.program == cfg.command
            &&& spec.env == cfg.env
        },
{
}

/// A launch is refused exactly where there is no program, or no template for what is asked;
/// the refusal names the agent and what is missing.
pub proof fn law_launch_needs_a_program_and_a_template(
    id: Seq<char>,
    cfg: ConfigView,
    invocation: Invocation,
    ctx: ContextView,
)
    ensures
        ({
            let plan = configurable::planned(id, cfg, invocation, ctx);
            &&& no_program(cfg) ==> plan == Err::<CommandView, _>(
                LaunchErrorView::NoCommand { agent: id },
            )
            &&& !no_program(cfg) ==> match invocation {
                Invocation::Interactive { .. } => plan is Ok,
                Invocation::Headless { .. } => {
                    &&& unattended(cfg, ctx) is Some ==> plan is Ok
                    &&& unattended(cfg, ctx) is None && ctx.model is Some ==> plan == Err::<
                        CommandView,
                        _,
                    >(LaunchErrorView::NoRunArgs { agent: id })
                    &&& unattended(cfg, ctx) is None && ctx.model is None ==> plan == Err::<
                        CommandView,
                        _,
                    >(LaunchErrorView::NoHeadlessArgs { agent: id })
                },
                Invocation::Resume(_) => {
                    &&& cfg.resume_args is Some ==> plan is Ok
                    &&& cfg.resume_args is None ==> plan == Err::<CommandView, _>(
                        LaunchErrorView::NoResumeArgs { agent: id },
                    )
                },
            }
        }),
{
    lemma_blank(cfg.command);
}

/// An interactive launch has the arguments of its opening template, filled with the model,
/// and behind them those that seed the prompt, where there is a prompt and a template for
/// it. A prompt that no argument carries is typed; one that an argument carries is not, and
/// is submitted where the agent does not do so itself. Stdin stays open.
pub proof fn law_interactive_launch(
    id: Seq<char>,
    cfg: ConfigView,
    invocation: Invocation,
    ctx: ContextView,
)
    requires
        invocation is Interactive,
        !no_program(cfg),
    ensures
        configurable::planned(id, cfg, invocation, ctx) matches Ok(spec) && {
            let base = opening(cfg, ctx);
            let seed = match (ctx.prompt, cfg.prompt_args) {
                (Some(_), Some(template)) => template,
                _ => Seq::empty(),
            };
            &&& spec.args.len() == base.len() + seed.len()
            &&& forall|i: int|
                0 <= i < base.len() ==> #[trigger] spec.args[i] == with_model(base[i], ctx)
            &&& forall|i: int|
                base.len() <= i < base.len() + seed.len() ==> #[trigger] spec.args[i]
                    == with_prompt(seed[i - base.len()], ctx)
            &&& spec.stdin_prompt == if has_prompt(seed) {
                None
            } else {
                ctx.prompt
            }
            &&& !spec.stdin_eof
            &&& spec.submit == if has_prompt(seed) && cfg.submit_prompt == Some(true) {
                SubmitStrategy::AfterSettle { delay: 1200, max_sends: 8 }
            } else {
                SubmitStrategy::Never
            }
        },
{
    lemma_blank(cfg.command);
    let base = opening(cfg, ctx);
    assert forall|i: int| 0 <= i < base.len() implies agent::filled(
        #[trigger] base[i],
        configurable::interactive_vars(ctx),
        0,
    ) == with_model(base[i], ctx) by {
        lemma_filled(base[i], ctx);
    }
    if let Some(seed) = cfg.prompt_args {
        assert forall|i: int| 0 <= i < seed.len() implies agent::filled(
            #[trigger] seed[i],
            configurable::prompt_vars(ctx),
            0,
        ) == with_prompt(seed[i], ctx) by {
            lemma_filled(seed[i], ctx);
        }
    }
}

/// An unattended run has the arguments of its template, filled with the prompt, the model
/// and the session. A prompt that no argument carries goes to stdin, which ends behind it.
pub proof fn law_unattended_launch(
    id: Seq<char>,
    cfg: ConfigView,
    invocation: Invocation,
    ctx: ContextView,
    template: Seq<Seq<char>>,
)
    requires
        invocation is Headless,
        !no_program(cfg),
        unattended(cfg, ctx) == Some(template),
    ensures
        configurable::planned(id, cfg, invocation, ctx) matches Ok(spec) && {
            &&& spec.args.len() == template.len()
            &&& forall|i: int|
                0 <= i < template.len() ==> #[trigger] spec.args[i] == with_session(
                    with_prompt(template[i], ctx),
                    ctx,
                )
            &&& spec.stdin_prompt == if has_prompt(template) {
                None
            } else {
                ctx.prompt
            }
            &&& spec.stdin_eof
            &&& spec.submit == SubmitStrategy::Never
        },
{
    lemma_blank(cfg.command);
    assert forall|i: int| 0 <= i < template.len() implies agent::filled(
        #[trigger] template[i],
        configurable::headless_vars(ctx),
        0,
    ) == with_session(with_prompt(template[i], ctx), ctx) by {
        lemma_filled(template[i], ctx);
    }
}

/// A resumed session has the arguments of its template, filled with the session; nothing
/// is typed or submitted.
pub proof fn law_resumed_launch(
    id: Seq<char>,
    cfg: ConfigView,
    invocation: Invocation,
    ctx: ContextView,
    template: Seq<Seq<char>>,
)
    requires
        invocation is Resume,
        !no_program(cfg),
        cfg.resume_args == Some(template),
    ensures
        configurable::planned(id, cfg, invocation, ctx) matches Ok(spec) && {
            &&& spec.args.len() == template.len()
            &&& forall|i: int|
                0 <= i < template.len() ==> #[trigger] spec.args[i] == with_session(
                    template[i],
                    ctx,
                )
            &&& spec.stdin_prompt is None
            &&& !spec.stdin_eof
            &&& spec.submit == SubmitStrategy::Never
        },
{
    lemma_blank(cfg.command);
    assert forall|i: int| 0 <= i < template.len() implies agent::filled(
        #[trigger] template[i],
        configurable::resume_vars(ctx),
        0,
    ) == with_session(template[i], ctx) by {
        lemma_filled(template[i], ctx);
    }
}

/// Without a server opencode runs what its templates say. With one, a session at a terminal
/// attaches to the session created for it, a resumed one to its own, and an unattended run
/// only to one that was created on the server: the arguments that name the server stand
/// first, but behind a leading subcommand, and the password travels in the environment.
pub proof fn law_opencode_attaches(
    id: Seq<char>,
    cfg: ConfigView,
    invocation: Invocation,
    ctx: ContextView,
    endpoint: Option<EndpointView>,
)
    ensures
        ({
            let plain = configurable::planned(id, cfg, invocation, ctx);
            let plan = opencode::planned(id, cfg, invocation, ctx, endpoint);
            let wanted = match invocation {
                Invocation::Interactive { .. } => ctx.session_id is Some,
                Invocation::Headless { .. } => ctx.session_id is Some && ctx.managed_session,
                Invocation::Resume(_) => true,
            };
            &&& plain is Err ==> plan == plain
            &&& endpoint is None || !wanted ==> plan == plain
            &&& (plain matches Ok(spec) && endpoint matches Some(ep) && wanted) ==> {
                let named = if invocation is Resume {
                    seq!["--server"@, endpoint->0.url]
                } else {
                    seq!["--server"@, endpoint->0.url, "--session"@, ctx.session_id->0]
                };
                let args = plain->Ok_0.args;
                plan == Ok::<CommandView, LaunchErrorView>(
                    CommandView {
                        args: if args.len() > 0 && (args[0] == "mini"@ || args[0] == "run"@) {
                            seq![args[0]] + named + args.skip(1)
                        } else {
                            named + args
                        },
                        env: plain->Ok_0.env.insert(
                            "OPENCODE_SERVER_PASSWORD"@,
                            endpoint->0.password,
                        ),
                        ..plain->Ok_0
                    },
                )
            }
        }),
{
    let plain = configurable::planned(id, cfg, invocation, ctx);
    if let (Ok(spec), Some(ep)) = (plain, endpoint) {
        let args = spec.args;
        assert(args.skip(0) == args);
        assert(args.take(0) == Seq::<Seq<char>>::empty());
        if args.len() > 0 {
            assert(args.take(1) == seq![args[0]]);
        }
        assert(opencode::server_args(ep.url, None) == seq!["--server"@, ep.url]);
        if let Some(session) = ctx.session_id {
            assert(opencode::server_args(ep.url, ctx.session_id) == seq![
                "--server"@,
                ep.url,
                "--session"@,
                session,
            ]);
            let four = seq!["--server"@, ep.url, "--session"@, session];
            assert(Seq::<Seq<char>>::empty() + four + args == four + args);
        }
        let two = seq!["--server"@, ep.url];
        assert(Seq::<Seq<char>>::empty() + two + args == two + args);
    }
}

/// pi's unattended runs speak the protocol: the chosen model and the named session stand
/// behind it on the command line, the prompt does not, and stdin stays open. At a terminal
/// pi runs what its templates say.
pub proof fn law_pi_speaks_the_protocol(
    id: Seq<char>,
    cfg: ConfigView,
    invocation: Invocation,
    ctx: ContextView,
)
    ensures
        ({
            let plan = pi::planned(id, cfg, invocation, ctx);
            let mode = seq!["--mode"@, "rpc"@];
            let model = seq!["--provider"@, chosen(ctx.provider), "--model"@, chosen(ctx.model)];
            let session = seq!["--session-id"@, chosen(ctx.session_id)];
            &&& !(invocation is Headless) ==> plan == configurable::planned(
                id,
                cfg,
                invocation,
                ctx,
            )
            &&& invocation is Headless && no_program(cfg) ==> plan == Err::<CommandView, _>(
                LaunchErrorView::NoCommand { agent: id },
            )
            &&& invocation is Headless && !no_program(cfg) ==> plan == Ok::<_, LaunchErrorView>(
                CommandView {
                    program: cfg.command,
                    args: match (ctx.model, ctx.session_id) {
                        (Some(_), Some(_)) => mode + model + session,
                        (Some(_), None) => mode + model,
                        (None, Some(_)) => mode + session,
                        (None, None) => mode,
                    },
                    env: cfg.env,
                    cwd: directory(cfg, ctx),
                    stdin_prompt: None,
                    stdin_eof: false,
                    submit: SubmitStrategy::Never,
                },
            )
        }),
{
    lemma_blank(cfg.command);
    let mode = seq!["--mode"@, "rpc"@];
    let model = seq!["--provider"@, chosen(ctx.provider), "--model"@, chosen(ctx.model)];
    let session = seq!["--session-id"@, chosen(ctx.session_id)];
    let none = Seq::<Seq<char>>::empty();
    assert(mode + none + session == mode + session);
    assert(mode + none + none == mode);
    assert(mode + model + none == mode + model);
}

/// What an agent can do follows from its templates and its kind.
pub proof fn law_templates_decide_what_an_agent_can_do(kind: AgentKind, cfg: ConfigView)
    ensures
        registry::abilities(kind, cfg) == (AgentCapabilities {
            interactive: true,
            headless: cfg.headless_args is Some || cfg.run_args is Some,
            resume: cfg.resume_args is Some,
            model_selection: cfg.run_args is Some || cfg.interactive_model_args is Some,
            providers: kind is OpenCode,
            structured_output: cfg.session_id_json_key is Some,
            reports_session_id: cfg.session_id_json_key is Some,
            prompt_prefill: cfg.submit_prompt == Some(true),
            interactive_prompt: cfg.prompt_args is Some || cfg.submit_prompt == Some(true),
            reports_state: !(kind is Configurable),
            permission_channel: kind is OpenCode || kind is Pi,
            concurrent_attach: kind is OpenCode,
        }),
{
}

/// Every set field of an entry replaces the built-in one, and only those; a blank command
/// or an empty list of arguments sets nothing; variables join, the entry's winning.
pub proof fn law_entry_overrides_what_it_sets(base: ConfigView, over: ConfigView)
    ensures
        ({
            let cfg = configurable::overlaid(base, over);
            &&& cfg.command == if no_program(over) {
                base.command
            } else {
                over.command
            }
            &&& cfg.args == if over.args.len() == 0 {
                base.args
            } else {
                over.args
            }
            &&& cfg.headless_args == if over.headless_args is Some {
                over.headless_args
            } else {
                base.headless_args
            }
            &&& cfg.run_args == if over.run_args is Some {
                over.run_args
            } else {
                base.run_args
            }
            &&& cfg.resume_args == if over.resume_args is Some {
                over.resume_args
            } else {
                base.resume_args
            }
            &&& cfg.interactive_model_args == if over.interactive_model_args is Some {
                over.interactive_model_args
            } else {
                base.interactive_model_args
            }
            &&& cfg.prompt_args == if over.prompt_args is Some {
                over.prompt_args
            } else {
                base.prompt_args
            }
            &&& cfg.session_id_json_key == if over.session_id_json_key is Some {
                over.session_id_json_key
            } else {
                base.session_id_json_key
            }
            &&& cfg.submit_prompt == if over.submit_prompt is Some {
                over.submit_prompt
            } else {
                base.submit_prompt
            }
            &&& cfg.cwd == if over.cwd is Some {
                over.cwd
            } else {
                base.cwd
            }
            &&& cfg.agent_type == base.agent_type
            &&& cfg.git == base.git
            &&& forall|key: Seq<char>| #[trigger]
                cfg.env.contains_key(key) == (base.env.contains_key(key) || over.env.contains_key(
                    key,
                ))
            &&& forall|key: Seq<char>|
                over.env.contains_key(key) ==> #[trigger] cfg.env[key] == over.env[key]
            &&& forall|key: Seq<char>|
                base.env.contains_key(key) && !over.env.contains_key(key)
                    ==> #[trigger] cfg.env[key] == base.env[key]
        }),
{
    lemma_blank(over.command);
}

} // verus!
