//! The sessions of the daemon: how a launch is put together, what a session keeps,
//! and how events change it.
//!
//! The daemon owns the pseudo-terminal, the emulator and the threads of a session.
//! What they decide stands here.
use crate::agent_hooks;
use crate::agent_hooks::{AgentHookLaunch, HookInjection, HookMap, HookRouteError, HookRouter};
use crate::agents::agent;
use crate::agents::agent::{
    check_arg_sizes, extract_session_id_from_line, AgentContext, CommandSpec, CommandView,
    ContextView, Invocation, LaunchError, LaunchErrorView, SessionIdProbe, MAX_ARG_BYTES,
};
use crate::agents::detect;
use crate::agents::detect::contents_of;
use crate::agents::product;
use crate::agents::product::command_name;
use crate::agents::state::StateSourceConfig;
use crate::config::{AgentConfig, GitSettings, GitSigning, GitView};
use crate::json;
use crate::json::owned;
use crate::lines;
use crate::lines::{append_bytes, decode_lossy, take_line};
use crate::model;
use crate::model::{copy_text, copy_texts};
use crate::paths;
use crate::paths::join;
use crate::table;
use crate::table::Table;
use crate::text;
use crate::text::{push_text, to_decimal};
use vstd::prelude::*;

verus! {

/// How many lines of scrollback an emulator keeps.
pub const SCROLLBACK: usize = 2000;

/// How much raw output a session keeps, in bytes.
pub const MAX_RAW: usize = 1048576;

/// How long a line may grow while it is searched for a session's id, in bytes.
pub const MAX_ID_LINE: usize = 65536;

/// Writes the values of an invocation into a launch's context.
pub open spec fn filled(invocation: Invocation, ctx: ContextView) -> ContextView {
    match invocation {
        Invocation::Interactive { prompt, provider, model } => ContextView {
            prompt: json::opt_str(prompt),
            provider: json::opt_str(provider),
            model: json::opt_str(model),
            ..ctx
        },
        Invocation::Headless { prompt, provider, model } => ContextView {
            prompt: Some(prompt@),
            provider: json::opt_str(provider),
            model: json::opt_str(model),
            ..ctx
        },
        Invocation::Resume(session_id) => ContextView { session_id: Some(session_id@), ..ctx },
    }
}

/// Writes the values of an invocation into a launch's context.
pub fn fill_context(invocation: &Invocation<'_>, ctx: &mut AgentContext)
    ensures
        final(ctx)@ == filled(*invocation, old(ctx)@),
{
    match invocation {
        Invocation::Interactive { prompt, provider, model } => {
            ctx.prompt = owned(*prompt);
            ctx.provider = owned(*provider);
            ctx.model = owned(*model);
        },
        Invocation::Headless { prompt, provider, model } => {
            ctx.prompt = Some((*prompt).to_owned());
            ctx.provider = owned(*provider);
            ctx.model = owned(*model);
        },
        Invocation::Resume(session_id) => {
            ctx.session_id = Some((*session_id).to_owned());
        },
    }
}

/// A launch that was given hooks: their arguments stand first, and their variables
/// prevail.
pub open spec fn injected(
    spec: CommandView,
    args: Seq<Seq<char>>,
    env: Map<Seq<char>, Seq<char>>,
) -> CommandView {
    CommandView { args: args + spec.args, env: spec.env.union_prefer_right(env), ..spec }
}

/// Gives a launch its hooks.
pub fn inject(spec: &mut CommandSpec, injection: HookInjection)
    ensures
        final(spec)@ == injected(old(spec)@, text::views(injection.args@), injection.env@),
{
    let mut args = injection.args;
    let ghost front = args@;
    let ghost back = spec.args@;
    args.append(&mut spec.args);
    assert(text::views(args@) == text::views(front) + text::views(back));
    spec.args = args;
    spec.env.extend(&injection.env);
}

/// Whether every argument of a launch fits on a command line.
pub open spec fn args_fit(args: Seq<Seq<char>>) -> bool {
    forall|i: int| 0 <= i < args.len() ==> agent::byte_len(#[trigger] args[i]) <= MAX_ARG_BYTES
}

/// What a launch runs, before its arguments are measured.
pub open spec fn launch_of(
    planned: CommandView,
    injection: Option<HookInjection>,
) -> CommandView {
    match injection {
        Some(injection) => injected(planned, text::views(injection.args@), injection.env@),
        None => planned,
    }
}

/// Puts a launch together: the agent's command, its hooks where it has some, and a
/// look at the length of its arguments. The hooks are made once the agent has planned
/// its command, so that a refused launch leaves no settings behind.
pub fn plan_launch(planned: CommandSpec, injection: Option<HookInjection>) -> (plan: Result<
    CommandSpec,
    LaunchError,
>)
    ensures
        ({
            let launch = launch_of(planned@, injection);
            if args_fit(launch.args) {
                plan is Ok && plan->Ok_0@ == launch
            } else {
                plan is Err && exists|i: int|
                    0 <= i < launch.args.len() && agent::byte_len(#[trigger] launch.args[i])
                        > MAX_ARG_BYTES && args_fit(launch.args.take(i))
                        && plan->Err_0@ == (LaunchErrorView::ArgumentTooLong {
                        program: launch.program,
                        bytes: agent::byte_len(launch.args[i]) as usize,
                    })
            }
        }),
{
    let mut spec = planned;
    if let Some(injection) = injection {
        inject(&mut spec, injection);
    }
    let ghost args = spec@.args;
    assert(forall|i: int| 0 <= i < args.len() ==> #[trigger] args[i] == spec.args@[i]@);
    match check_arg_sizes(spec.program.as_str(), &spec.args) {
        Ok(_) => {
            assert(forall|i: int|
                0 <= i < args.len() ==> agent::byte_len(#[trigger] args[i]) <= MAX_ARG_BYTES);
            Ok(spec)
        },
        Err(error) => {
            proof {
                let i = choose|i: int|
                    0 <= i < spec.args@.len() && agent::byte_len(#[trigger] spec.args@[i]@)
                        > MAX_ARG_BYTES && (forall|k: int|
                        0 <= k < i ==> agent::byte_len(#[trigger] spec.args@[k]@)
                            <= MAX_ARG_BYTES) && error@ == (LaunchErrorView::ArgumentTooLong {
                        program: spec.program@,
                        bytes: agent::byte_len(spec.args@[i]@) as usize,
                    });
                assert(args[i] == spec.args@[i]@);
                assert(!args_fit(args));
                assert forall|k: int| 0 <= k < args.take(i).len() implies agent::byte_len(
                    #[trigger] args.take(i)[k],
                ) <= MAX_ARG_BYTES by {
                    assert(args.take(i)[k] == spec.args@[k]@);
                }
            }
            Err(error)
        },
    }
}

/// The program and the arguments of a child. Under a supervisor the agent's program
/// becomes an argument, so that it dies with the daemon.
pub open spec fn child_args(supervised: bool, spec: CommandView) -> Seq<Seq<char>> {
    if supervised {
        seq!["__agent-exec"@, "--"@, spec.program] + spec.args
    } else {
        spec.args
    }
}

/// The program and the arguments of a child; `supervisor` is the program that agents
/// run under, where they do.
pub fn child_command(supervisor: Option<&str>, spec: &CommandSpec) -> (child: (String, Vec<String>))
    ensures
        child.0@ == match supervisor {
            Some(program) => program@,
            None => spec@.program,
        },
        text::views(child.1@) == child_args(supervisor is Some, spec@),
{
    match supervisor {
        Some(program) => {
            let mut args: Vec<String> = Vec::new();
            assert(text::views(args@) == Seq::<Seq<char>>::empty());
            push_text(&mut args, "__agent-exec".to_owned());
            push_text(&mut args, "--".to_owned());
            push_text(&mut args, spec.program.clone());
            let ghost front = args@;
            let mut rest = copy_texts(&spec.args);
            let ghost back = rest@;
            args.append(&mut rest);
            assert(text::views(args@) == text::views(front) + text::views(back));
            assert(text::views(front) == seq!["__agent-exec"@, "--"@, spec@.program]);
            (program.to_owned(), args)
        },
        None => (spec.program.clone(), copy_texts(&spec.args)),
    }
}

/// The variables of a child, over those that it inherits: its directory and its
/// terminal, those of the launch, and last those of git.
pub open spec fn child_vars(
    spec: CommandView,
    git: Map<Seq<char>, Seq<char>>,
) -> Map<Seq<char>, Seq<char>> {
    let base = match spec.cwd {
        Some(dir) => Map::<Seq<char>, Seq<char>>::empty().insert("PWD"@, dir),
        None => Map::empty(),
    };
    base.insert("TERM"@, "xterm-256color"@).union_prefer_right(spec.env).union_prefer_right(git)
}

/// The variables of a child.
pub fn child_env(spec: &CommandSpec, git: &Table<String>) -> (env: Table<String>)
    ensures
        env@ == child_vars(spec@, git@),
{
    let mut env: Table<String> = Table::new();
    if let Some(dir) = &spec.cwd {
        env.insert("PWD".to_owned(), dir.clone());
    }
    env.insert("TERM".to_owned(), "xterm-256color".to_owned());
    env.extend(&spec.env);
    env.extend(git);
    env
}

/// The settings for git prevail: no variable of a launch can bring back a signer that
/// asks its user.
pub proof fn law_git_prevails(
    spec: CommandView,
    git: Map<Seq<char>, Seq<char>>,
    key: Seq<char>,
)
    requires
        git.contains_key(key),
    ensures
        child_vars(spec, git).contains_key(key),
        child_vars(spec, git)[key] == git[key],
{
}

/// What an agent's own settings for git make of the general ones: `overlay` lays them
/// over, and an agent without any has the general ones.
pub open spec fn git_merged<F: Fn(&GitSettings, &GitSettings) -> GitSettings>(
    overlay: F,
    general: GitView,
    own: Option<GitView>,
    merged: GitView,
) -> bool {
    match own {
        Some(own) => exists|a: &GitSettings, b: &GitSettings, c: GitSettings|
            a@ == general && b@ == own && c@ == merged && #[trigger] call_ensures(
                overlay,
                (a, b),
                c,
            ),
        None => merged == general,
    }
}

/// The settings for git of every agent that is configured.
pub fn agent_git<F: Fn(&GitSettings, &GitSettings) -> GitSettings>(
    agents: &Table<AgentConfig>,
    general: &GitSettings,
    overlay: &F,
) -> (per_agent: Table<GitSettings>)
    requires
        forall|a: &GitSettings, b: &GitSettings| call_requires(*overlay, (a, b)),
    ensures
        per_agent@.dom() == agents@.dom(),
        forall|name: Seq<char>| #[trigger]
            agents@.contains_key(name) ==> git_merged(
                *overlay,
                general@,
                agents@[name].git,
                per_agent@[name],
            ),
{
    let names = agents.sorted_keys();
    let ghost all = text::views(names@);
    let mut per_agent: Table<GitSettings> = Table::new();
    let mut i: usize = 0;
    while i < names.len()
        invariant
            i <= names@.len(),
            all == text::views(names@),
            forall|a: &GitSettings, b: &GitSettings| call_requires(*overlay, (a, b)),
            forall|k: Seq<char>| #[trigger] all.contains(k) <==> agents@.contains_key(k),
            forall|name: Seq<char>| #[trigger]
                per_agent@.contains_key(name) <==> exists|k: int|
                    0 <= k < i && #[trigger] all[k] == name,
            forall|name: Seq<char>| #[trigger]
                per_agent@.contains_key(name) ==> git_merged(
                    *overlay,
                    general@,
                    agents@[name].git,
                    per_agent@[name],
                ),
        decreases names@.len() - i,
    {
        let ghost name = all[i as int];
        assert(name == names@[i as int]@);
        assert(all.contains(name));
        let ghost before = per_agent@;
        if let Some(agent) = agents.get(names[i].as_str()) {
            let merged = match &agent.git {
                Some(own) => {
                    let merged = overlay(general, own);
                    assert(call_ensures(*overlay, (general, own), merged));
                    merged
                },
                None => general.clone(),
            };
            assert(git_merged(*overlay, general@, agents@[name].git, merged@));
            per_agent.insert(names[i].clone(), merged);
        }
        assert forall|n: Seq<char>| #[trigger]
            per_agent@.contains_key(n) <==> exists|k: int|
                0 <= k < i + 1 && #[trigger] all[k] == n by {
            if n == name {
                assert(all[i as int] == n);
            } else {
                assert(before.contains_key(n) == per_agent@.contains_key(n));
            }
        }
        assert forall|n: Seq<char>| #[trigger] per_agent@.contains_key(n) implies git_merged(
            *overlay,
            general@,
            agents@[n].git,
            per_agent@[n],
        ) by {
            if n != name {
                assert(before.contains_key(n));
            }
        }
        i += 1;
    }
    assert forall|name: Seq<char>| #[trigger]
        agents@.contains_key(name) <==> per_agent@.contains_key(name) by {
        if agents@.contains_key(name) {
            assert(all.contains(name));
            let k = choose|k: int| 0 <= k < all.len() && all[k] == name;
            assert(0 <= k < i && all[k] == name);
        }
        if per_agent@.contains_key(name) {
            let k = choose|k: int| 0 <= k < i && #[trigger] all[k] == name;
            assert(all.contains(all[k]));
        }
    }
    assert(per_agent@.dom() =~= agents@.dom());
    per_agent
}

/// The settings for git of a launch: those of the agent's entry, or else the general
/// ones, with the mode of signing that the task asks for.
pub fn git_settings(
    per_agent: &Table<GitSettings>,
    general: &GitSettings,
    name: &str,
    signing: Option<GitSigning>,
) -> (settings: GitSettings)
    ensures
        ({
            let chosen = match table::lookup(per_agent@, name@) {
                Some(own) => own,
                None => general@,
            };
            settings@ == GitView { signing: json::first_of(signing, chosen.signing), ..chosen }
        }),
{
    let mut settings = match per_agent.get(name) {
        Some(own) => own.clone(),
        None => general.clone(),
    };
    if signing.is_some() {
        settings.signing = signing;
    }
    settings
}

/// The captured output of a session as text.
pub fn output(raw: &[u8]) -> (text: String)
    ensures
        text@ == lines::lossy_text(raw@),
        vstd::utf8::valid_utf8(raw@) ==> text@ == vstd::utf8::decode_utf8(raw@),
{
    decode_lossy(raw)
}

/// The plain text on a session's screen.
pub fn screen_text(screen: &vt100::Screen) -> (text: String)
    ensures
        text@ == detect::screen_text(*screen),
{
    contents_of(screen)
}

/// What is typed into a child at its start: the prompt that was not on its command
/// line, Enter, and for an unattended run the end of its input.
pub open spec fn typed(spec: CommandView) -> Seq<u8> {
    match spec.stdin_prompt {
        Some(prompt) => vstd::utf8::encode_utf8(prompt).push(13) + if spec.stdin_eof {
            seq![4u8]
        } else {
            Seq::empty()
        },
        None => Seq::empty(),
    }
}

/// What is typed into a child at its start.
pub fn stdin_bytes(spec: &CommandSpec) -> (bytes: Vec<u8>)
    ensures
        bytes@ == typed(spec@),
{
    let mut bytes: Vec<u8> = Vec::new();
    if let Some(prompt) = &spec.stdin_prompt {
        append_bytes(&mut bytes, prompt.as_str().as_bytes());
        bytes.push(13);
        if spec.stdin_eof {
            bytes.push(4);
        }
    }
    assert(bytes@ == typed(spec@));
    bytes
}

/// A size that a terminal can have: no side is zero.
pub fn terminal_size(rows: u16, cols: u16) -> (size: (u16, u16))
    ensures
        size.0 == if rows < 1 {
            1
        } else {
            rows
        },
        size.1 == if cols < 1 {
            1
        } else {
            cols
        },
{
    (
        if rows < 1 {
            1
        } else {
            rows
        },
        if cols < 1 {
            1
        } else {
            cols
        },
    )
}

/// The session id that an unattended run starts with: that of the caller, where the
/// agent does not report its own.
pub fn seeded_session_id(headless: bool, has_probe: bool, ctx: &AgentContext) -> (id: Option<
    String,
>)
    ensures
        model::opt_text(id) == if headless && !has_probe {
            ctx@.session_id
        } else {
            None
        },
{
    if headless && !has_probe {
        copy_text(&ctx.session_id)
    } else {
        None
    }
}

/// The description of a launch from which an agent chooses how it is observed.
pub fn source_config(headless: bool, ctx: &AgentContext, spec: &CommandSpec, hook_router: bool) -> (cfg:
    StateSourceConfig)
    ensures
        cfg.headless == headless,
        cfg.managed_session == ctx@.managed_session,
        cfg.program@ == spec@.program,
        text::views(cfg.args@) == spec@.args,
        cfg.env@ == spec@.env,
        model::opt_text(cfg.cwd) == spec@.cwd,
        cfg.hook_router == hook_router,
{
    StateSourceConfig {
        headless,
        managed_session: ctx.managed_session,
        program: spec.program.clone(),
        args: copy_texts(&spec.args),
        env: spec.env.clone(),
        cwd: copy_text(&spec.cwd),
        hook_router,
    }
}

/// The host that the daemon listens on.
#[derive(Debug, PartialEq, Eq)]
pub struct ListenHost {
    /// The address as it is written.
    pub address: String,
    pub is_v6: bool,
    /// Whether it stands for every address.
    pub unspecified: bool,
}

/// The address that a launch posts its hooks to, without its token.
pub open spec fn hook_base(
    address: Seq<char>,
    is_v6: bool,
    unspecified: bool,
    port: u16,
) -> Seq<char> {
    let host = if unspecified {
        "127.0.0.1"@
    } else if is_v6 {
        "["@ + address + "]"@
    } else {
        address
    };
    "http://"@ + host + ":"@ + text::decimal(port as nat) + "/agent-hooks/"@
        + product::command()
}

/// The address that a launch posts its hooks to, without its token. A host that
/// stands for every address is reached on the loopback; one of version six stands in
/// brackets.
pub fn hook_base_url(host: &ListenHost, port: u16) -> (url: String)
    ensures
        url@ == hook_base(host.address@, host.is_v6, host.unspecified, port),
{
    let name = if host.unspecified {
        "127.0.0.1".to_owned()
    } else if host.is_v6 {
        "[".to_owned().concat(host.address.as_str()).concat("]")
    } else {
        host.address.clone()
    };
    "http://".to_owned().concat(name.as_str()).concat(":").concat(
        to_decimal(port as u64).as_str(),
    ).concat("/agent-hooks/").concat(command_name().as_str())
}

/// Where launches post their hooks and find their settings; nothing where the listen
/// address could not be read, and then there are no hooks.
pub fn configure_hooks(listen: Option<(&ListenHost, u16)>, data_dir: &str) -> (launch: Option<
    AgentHookLaunch,
>)
    ensures
        match listen {
            Some((host, port)) => launch is Some && launch->0.endpoint@ == hook_base(
                host.address@,
                host.is_v6,
                host.unspecified,
                port,
            ) && launch->0.dir@ == paths::joined(data_dir@, "agent-hooks"@),
            None => launch is None,
        },
{
    match listen {
        Some((host, port)) => Some(
            AgentHookLaunch {
                endpoint: hook_base_url(host, port),
                dir: join(data_dir, "agent-hooks"),
            },
        ),
        None => None,
    }
}

/// Delivers a hook, where there are hooks.
pub fn route_hook<M: HookMap>(router: &mut Option<HookRouter<M>>, token: &str, body: &[u8]) -> (count:
    Result<usize, HookRouteError>)
    requires
        *old(router) is Some && (*old(router))->0@.contains_key(token@)
            ==> (*old(router))->0@[token@].map.ready(),
    ensures
        *old(router) is None ==> count == Err::<usize, HookRouteError>(HookRouteError::Disabled)
            && *final(router) is None,
        *old(router) is Some ==> {
            &&& *final(router) is Some
            &&& match json::parsed_bytes(body@) {
                Err(reason) => {
                    &&& count is Err && count->Err_0 is BadRequest
                    &&& count->Err_0->BadRequest_0@ == reason
                    &&& (*final(router))->0@ == (*old(router))->0@
                },
                Ok(payload) => if (*old(router))->0@.contains_key(token@) {
                    count is Ok && agent_hooks::received(
                        (*old(router))->0@,
                        token@,
                        payload,
                        (*final(router))->0@,
                        count->Ok_0 as nat,
                    )
                } else {
                    &&& count == Err::<usize, HookRouteError>(HookRouteError::UnknownToken)
                    &&& (*final(router))->0@ == (*old(router))->0@
                },
            }
        },
{
    match router.take() {
        Some(found) => {
            let mut found = found;
            let count = found.route(token, body);
            *router = Some(found);
            count
        },
        None => Err(HookRouteError::Disabled),
    }
}

/// The last [`MAX_RAW`] bytes of some output.
pub open spec fn retained(output: Seq<u8>) -> Seq<u8> {
    if output.len() > MAX_RAW {
        output.skip(output.len() - MAX_RAW)
    } else {
        output
    }
}

/// Appends output to what a session keeps of it.
pub fn retain_raw(raw: &mut Vec<u8>, bytes: &[u8])
    ensures
        final(raw)@ == retained(old(raw)@ + bytes@),
{
    append_bytes(raw, bytes);
    if raw.len() > MAX_RAW {
        let excess: usize = raw.len() - MAX_RAW;
        let ghost all = raw@;
        let rest = raw.split_off(excess);
        assert(rest@ == all.skip(excess as int));
        *raw = rest;
    }
}

/// However the output comes, what is kept is its end.
pub proof fn law_end_of_output_is_kept(kept: Seq<u8>, a: Seq<u8>, b: Seq<u8>)
    ensures
        retained(retained(kept + a) + b) == retained(kept + a + b),
        retained(kept).len() <= MAX_RAW,
{
    assert(retained(retained(kept + a) + b) =~= retained(kept + a + b));
}

/// The first session id in the complete lines of `bytes`, and what is left behind the
/// line that it is in.
pub open spec fn id_in_lines(bytes: Seq<u8>, key: Seq<char>) -> (Option<Seq<char>>, Seq<u8>)
    decreases bytes.len(),
{
    if lines::has_line(bytes) && 0 <= lines::feed_at(bytes) {
        match agent::session_id_of_line(lines::first_line(bytes), key) {
            Some(id) => (Some(id), lines::after_line(bytes)),
            None => id_in_lines(lines::after_line(bytes), key),
        }
    } else {
        (None, bytes)
    }
}

/// What is still searched of some bytes: nothing where they have grown too long.
pub open spec fn searched(bytes: Seq<u8>) -> Seq<u8> {
    if bytes.len() > MAX_ID_LINE {
        Seq::empty()
    } else {
        bytes
    }
}

/// Searches an agent's output for its session id.
#[derive(Debug)]
pub struct IdSearch {
    pub probe: SessionIdProbe,
    pub buffer: Vec<u8>,
}

impl IdSearch {
    pub fn new(probe: SessionIdProbe) -> (search: IdSearch)
        ensures
            search.probe == probe,
            search.buffer@ == Seq::<u8>::empty(),
    {
        IdSearch { probe, buffer: Vec::new() }
    }

    /// Searches one more chunk. The first id that is found fills an empty slot; a
    /// filled one stays.
    pub fn push(&mut self, chunk: &[u8], slot: &mut Option<String>)
        ensures
            final(self).probe == old(self).probe,
            ({
                let (id, rest) = id_in_lines(
                    old(self).buffer@ + chunk@,
                    agent::probe_key(old(self).probe),
                );
                &&& final(self).buffer@ == searched(rest)
                &&& model::opt_text(*final(slot)) == json::first_of(model::opt_text(*old(slot)), id)
            }),
    {
        append_bytes(&mut self.buffer, chunk);
        let ghost all = self.buffer@;
        let ghost key = agent::probe_key(self.probe);
        let ghost goal = id_in_lines(all, key);
        let mut found: Option<String> = None;
        let mut going = true;
        while going
            invariant
                self.probe == old(self).probe,
                key == agent::probe_key(self.probe),
                *slot == *old(slot),
                going ==> found is None && id_in_lines(self.buffer@, key) == goal,
                !going ==> (model::opt_text(found), self.buffer@) == goal,
            decreases self.buffer@.len(), going as int,
        {
            proof {
                lines::lemma_feed_bounds(self.buffer@);
            }
            match take_line(&mut self.buffer) {
                Some(line) => {
                    let line = text::chomp(line.as_str());
                    found = extract_session_id_from_line(line, &self.probe);
                    if found.is_some() {
                        going = false;
                    }
                },
                None => {
                    going = false;
                },
            }
        }
        if self.buffer.len() > MAX_ID_LINE {
            self.buffer = Vec::new();
        }
        if slot.is_none() {
            *slot = found;
        }
    }
}

/// The longest wait for a child's first output, in milliseconds.
pub const FIRST_OUTPUT_TIMEOUT: u64 = 15000;

/// The pause between two looks for it, in milliseconds.
pub const FIRST_OUTPUT_INTERVAL: u64 = 75;

/// The pause behind each Enter, in milliseconds.
pub const RETRY_INTERVAL: u64 = 1200;

/// How often Enter is pressed at least.
pub const MIN_SENDS: u32 = 2;

/// How many chunks of output behind an Enter show that the agent has begun a turn.
pub const REACTED: u64 = 4;

/// Whether to wait on for a child's first output.
pub fn awaits_first_output(ticks: u64, running: bool, waited_ms: u64) -> (wait: bool)
    ensures
        wait == (ticks == 0 && running && waited_ms < FIRST_OUTPUT_TIMEOUT),
{
    ticks == 0 && running && waited_ms < FIRST_OUTPUT_TIMEOUT
}

/// Presses Enter for a prompt that a launch filled in.
///
/// Enter does nothing on an empty line, so it is pressed a few times, until the agent
/// reacts.
#[derive(Debug, Clone, Copy, PartialEq, Eq, Structural)]
pub struct Submitter {
    pub max_sends: u32,
    pub sent: u32,
    /// The output chunks that were seen before the last Enter.
    pub before: u64,
    pub reacted: bool,
}

impl Submitter {
    pub fn new(max_sends: u32, ticks: u64) -> (submitter: Submitter)
        ensures
            submitter == (Submitter { max_sends, sent: 0, before: ticks, reacted: false }),
    {
        Submitter { max_sends, sent: 0, before: ticks, reacted: false }
    }

    /// Whether Enter is to be pressed once more.
    pub open spec fn presses(self, running: bool) -> bool {
        running && !self.reacted && self.sent < self.max_sends
    }

    /// Whether Enter is to be pressed once more.
    pub fn should_send(&self, running: bool) -> (send: bool)
        ensures
            send == self.presses(running),
    {
        running && !self.reacted && self.sent < self.max_sends
    }

    /// Enter was pressed, and after the pause behind it this many chunks of output
    /// had been seen.
    pub fn sent(&mut self, ticks: u64)
        requires
            old(self).sent < old(self).max_sends,
        ensures
            *final(self) == (Submitter {
                sent: (old(self).sent + 1) as u32,
                reacted: old(self).sent + 1 >= MIN_SENDS && ticks - old(self).before >= REACTED,
                before: if old(self).sent + 1 >= MIN_SENDS && ticks - old(self).before >= REACTED {
                    old(self).before
                } else {
                    ticks
                },
                ..*old(self)
            }),
    {
        self.sent = self.sent + 1;
        let new: u64 = if ticks >= self.before {
            ticks - self.before
        } else {
            0
        };
        self.reacted = self.sent >= MIN_SENDS && new >= REACTED;
        if !self.reacted {
            self.before = ticks;
        }
    }
}

/// Enter is pressed at most as often as the launch allows, and never again once the
/// agent has reacted.
pub proof fn law_enter_is_bounded(s: Submitter, running: bool)
    ensures
        s.presses(running) ==> s.sent < s.max_sends && running && !s.reacted,
        s.reacted ==> !s.presses(running),
{
}

} // verus!
