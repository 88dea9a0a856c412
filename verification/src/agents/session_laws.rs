//! What a session shows after each event of its channel, and how its child is run.
use crate::agents::agent;
use crate::agents::agent::{CommandView, ContextView, Invocation};
use crate::agents::manager;
use crate::agents::manager::Submitter;
use crate::agents::product;
use crate::agents::sessions;
use crate::agents::sessions::{InfoView, NewSession};
use crate::agents::state::{ActivityView, LiveView};
use crate::json as tree;
use crate::lines;
use crate::model;
use crate::model::{AgentUsage, Cost, EventView, ReasonView};
use crate::text;
use vstd::prelude::*;

verus! {

/// Whether `c` is the sum of two counters, held at the largest where it is beyond.
pub open spec fn adds_up(a: u64, b: u64, c: u64) -> bool {
    if a + b <= u64::MAX {
        c == a + b
    } else {
        c == u64::MAX
    }
}

/// Two pieces of work together count what both count, each counter by itself; what only
/// one of them cost is the cost of both, and two costs are summed.
pub proof fn law_work_adds_up(a: AgentUsage, b: AgentUsage)
    ensures
        ({
            let c = a.merged(b);
            &&& adds_up(a.input_tokens, b.input_tokens, c.input_tokens)
            &&& adds_up(a.output_tokens, b.output_tokens, c.output_tokens)
            &&& adds_up(a.reasoning_tokens, b.reasoning_tokens, c.reasoning_tokens)
            &&& adds_up(a.cache_read_tokens, b.cache_read_tokens, c.cache_read_tokens)
            &&& adds_up(a.cache_write_tokens, b.cache_write_tokens, c.cache_write_tokens)
            &&& a.cost_usd is None ==> c.cost_usd == b.cost_usd
            &&& b.cost_usd is None ==> c.cost_usd == a.cost_usd
            &&& (a.cost_usd is Some && b.cost_usd is Some) ==> c.cost_usd == Some(
                Cost::Sum(Box::new(a.cost_usd->0), Box::new(b.cost_usd->0)),
            )
        }),
        a.merged(model::no_usage()) == a,
        model::no_usage().merged(a) == a,
{
}

/// No counter is ever lost: merged in whichever order, three pieces of work count the same.
pub proof fn law_counters_add_in_any_order(a: AgentUsage, b: AgentUsage, c: AgentUsage)
    ensures
        a.merged(b).input_tokens == b.merged(a).input_tokens,
        a.merged(b).output_tokens == b.merged(a).output_tokens,
        a.merged(b).reasoning_tokens == b.merged(a).reasoning_tokens,
        a.merged(b).cache_read_tokens == b.merged(a).cache_read_tokens,
        a.merged(b).cache_write_tokens == b.merged(a).cache_write_tokens,
        a.merged(b).merged(c).input_tokens == a.merged(b.merged(c)).input_tokens,
        a.merged(b).merged(c).output_tokens == a.merged(b.merged(c)).output_tokens,
        a.merged(b).merged(c).reasoning_tokens == a.merged(b.merged(c)).reasoning_tokens,
        a.merged(b).merged(c).cache_read_tokens == a.merged(b.merged(c)).cache_read_tokens,
        a.merged(b).merged(c).cache_write_tokens == a.merged(b.merged(c)).cache_write_tokens,
{
}

/// A process failed exactly where it is known to have exited with another code than zero.
pub proof fn law_only_another_code_is_bad(code: i32)
    ensures
        model::bad_exit(Some(code)) <==> code != 0,
        !model::bad_exit(None),
{
}

/// The live activity after an event: a turn, reasoning and the end of a tool show thinking,
/// text shows an answer, a tool shows itself, a request shows that it waits, an answer to it
/// and rest show an idle session; any other event leaves it. Only usage changes the usage,
/// which it adds to.
pub proof fn law_event_shows(live: LiveView, event: EventView)
    ensures
        ({
            let after = live.applied(event);
            &&& (event is TurnStarted || event is ReasoningDelta || event is ToolFinished)
                ==> after.activity == Some(ActivityView::Thinking)
            &&& event is TextDelta ==> after.activity == Some(ActivityView::Responding)
            &&& event matches EventView::ToolStarted { name, .. } ==> after.activity == Some(
                ActivityView::Tool { name, description: None },
            )
            &&& event matches EventView::InputRequested { request } ==> after.activity == Some(
                ActivityView::Waiting { request },
            )
            &&& (event is InputResolved || event is Idle) ==> after.activity == Some(
                ActivityView::Idle,
            )
            &&& (event is Session || event is Title || event is ToolUpdated || event is Usage
                || event is Error) ==> after.activity == live.activity
            &&& event matches EventView::Usage { usage } ==> after.usage == match live.usage {
                Some(known) => Some(known.merged(usage)),
                None => Some(usage),
            }
            &&& !(event is Usage) ==> after.usage == live.usage
        }),
{
    if let EventView::Usage { usage } = event {
        law_work_adds_up(usage, usage);
    }
}

/// A session waits from the moment its channel tells a request, with all that the request
/// says, until an answer or rest is told; nothing else starts or ends that.
pub proof fn law_request_makes_a_session_wait(info: InfoView, event: EventView)
    ensures
        ({
            let after = info.told(event);
            &&& event matches EventView::InputRequested { request } ==> after.awaiting_input == Some(
                ReasonView {
                    kind: request.kind,
                    message: request.message,
                    request_id: Some(request.id),
                    options: request.options,
                    allow_always: request.allow_always,
                },
            )
            &&& (event is InputResolved || event is Idle) ==> after.awaiting_input is None
            &&& !(event is InputRequested || event is InputResolved || event is Idle)
                ==> after.awaiting_input == info.awaiting_input
        }),
{
}

/// The first identity that is told, and is not empty, is that of the session; what it is
/// called, whether it runs and what it works on are not for its channel to change.
pub proof fn law_first_identity_is_taken(info: InfoView, event: EventView)
    ensures
        ({
            let after = info.told(event);
            &&& after.session_id == match (info.session_id, event) {
                (Some(known), _) => Some(known),
                (None, EventView::Session { session_id: Some(id), .. }) => if id.len() > 0 {
                    Some(id)
                } else {
                    None
                },
                _ => None,
            }
            &&& after.id == info.id
            &&& after.agent == info.agent
            &&& after.task_id == info.task_id
            &&& after.running == info.running
            &&& after.headless == info.headless
            &&& after.live == info.live.applied(event)
        }),
{
}

/// A session starts as one that runs, waits for nothing and has cost nothing; it shows that
/// it starts where its channel is observed.
pub proof fn law_session_starts_running(new: NewSession, order: u64)
    ensures
        ({
            let record = sessions::opened(new, order);
            let info = record.info;
            &&& info.running
            &&& info.id == new.id@
            &&& info.agent == new.agent@
            &&& info.headless == new.headless
            &&& info.awaiting_input is None
            &&& info.live.usage is None
            &&& new.observed ==> info.live.activity == Some(ActivityView::Starting)
            &&& !new.observed ==> info.live.activity is None
            &&& new.task_id matches Some(task) ==> info.task_id == Some(task@)
            &&& new.task_id is None ==> info.task_id is None
            &&& new.external_session_id matches Some(known) ==> info.session_id == Some(known@)
            &&& new.external_session_id is None ==> info.session_id is None
            &&& record.exit_code == -1
            &&& record.observed == new.observed
            &&& record.order == order
        }),
{
}

/// What an invocation names stands in the context of its launch; everything else of the
/// context stays.
pub proof fn law_invocation_fills_the_context(invocation: Invocation, ctx: ContextView)
    ensures
        ({
            let after = manager::filled(invocation, ctx);
            &&& invocation matches Invocation::Headless { prompt, .. } ==> after.prompt == Some(prompt@)
            &&& invocation matches Invocation::Interactive { prompt, .. } ==> match prompt {
                Some(p) => after.prompt == Some(p@),
                None => after.prompt is None,
            }
            &&& invocation matches Invocation::Headless { provider, .. } ==> match provider {
                Some(p) => after.provider == Some(p@),
                None => after.provider is None,
            }
            &&& invocation matches Invocation::Interactive { provider, .. } ==> match provider {
                Some(p) => after.provider == Some(p@),
                None => after.provider is None,
            }
            &&& invocation matches Invocation::Headless { model, .. } ==> match model {
                Some(m) => after.model == Some(m@),
                None => after.model is None,
            }
            &&& invocation matches Invocation::Interactive { model, .. } ==> match model {
                Some(m) => after.model == Some(m@),
                None => after.model is None,
            }
            &&& invocation matches Invocation::Resume(id) ==> after.session_id == Some(id@)
                && after.prompt == ctx.prompt && after.provider == ctx.provider && after.model
                == ctx.model
            &&& !(invocation is Resume) ==> after.session_id == ctx.session_id
            &&& after.cwd == ctx.cwd
            &&& after.managed_session == ctx.managed_session
            &&& after.cols == ctx.cols
            &&& after.rows == ctx.rows
            &&& after.git_signing == ctx.git_signing
        }),
{
}

/// Hooks add to a launch and take nothing away: their arguments stand before those of the
/// launch, all of which follow in their order, and their variables win; the program, the
/// directory and what is typed stay.
pub proof fn law_hooks_only_add(
    spec: CommandView,
    args: Seq<Seq<char>>,
    env: Map<Seq<char>, Seq<char>>,
)
    ensures
        ({
            let after = manager::injected(spec, args, env);
            &&& after.args.len() == args.len() + spec.args.len()
            &&& forall|i: int| 0 <= i < args.len() ==> #[trigger] after.args[i] == args[i]
            &&& forall|i: int|
                0 <= i < spec.args.len() ==> after.args[args.len() + i] == #[trigger] spec.args[i]
            &&& forall|key: Seq<char>| #[trigger]
                after.env.contains_key(key) == (spec.env.contains_key(key) || env.contains_key(key))
            &&& forall|key: Seq<char>|
                env.contains_key(key) ==> #[trigger] after.env[key] == env[key]
            &&& forall|key: Seq<char>|
                spec.env.contains_key(key) && !env.contains_key(key) ==> #[trigger] after.env[key]
                    == spec.env[key]
            &&& after.program == spec.program
            &&& after.cwd == spec.cwd
            &&& after.stdin_prompt == spec.stdin_prompt
            &&& after.stdin_eof == spec.stdin_eof
            &&& after.submit == spec.submit
        }),
{
}

/// A launch fits exactly where none of its arguments is longer than 120 KiB.
pub proof fn law_longest_argument_decides(args: Seq<Seq<char>>)
    ensures
        manager::args_fit(args) <==> forall|i: int|
            0 <= i < args.len() ==> vstd::utf8::encode_utf8(#[trigger] args[i]).len() <= 122880,
{
    assert forall|i: int| 0 <= i < args.len() implies agent::byte_len(#[trigger] args[i])
        == vstd::utf8::encode_utf8(args[i]).len() by {}
}

/// Under a supervisor a child has the program and the arguments of its launch behind the
/// supervisor's own; without one it has its arguments alone.
pub proof fn law_supervisor_runs_the_program(spec: CommandView)
    ensures
        ({
            let args = manager::child_args(true, spec);
            &&& args.len() == spec.args.len() + 3
            &&& args[0] == "__agent-exec"@
            &&& args[1] == "--"@
            &&& args[2] == spec.program
            &&& forall|i: int| 0 <= i < spec.args.len() ==> args[i + 3] == #[trigger] spec.args[i]
        }),
        manager::child_args(false, spec) == spec.args,
{
}

/// A child has its directory in `PWD` and a terminal with colours in `TERM`, unless its
/// launch or git says otherwise; a variable of the launch reaches it unless git has one of
/// that name, and no variable comes from anywhere else.
pub proof fn law_child_has_its_variables(
    spec: CommandView,
    git: Map<Seq<char>, Seq<char>>,
    key: Seq<char>,
)
    ensures
        ({
            let env = manager::child_vars(spec, git);
            &&& git.contains_key(key) ==> env.contains_key(key) && env[key] == git[key]
            &&& (!git.contains_key(key) && spec.env.contains_key(key)) ==> env.contains_key(key)
                && env[key] == spec.env[key]
            &&& (!git.contains_key(key) && !spec.env.contains_key(key)) ==> if key == "TERM"@ {
                env.contains_key(key) && env[key] == "xterm-256color"@
            } else if key == "PWD"@ {
                match spec.cwd {
                    Some(dir) => env.contains_key(key) && env[key] == dir,
                    None => !env.contains_key(key),
                }
            } else {
                !env.contains_key(key)
            }
        }),
{
    reveal_strlit("TERM");
    reveal_strlit("PWD");
    assert("TERM"@.len() != "PWD"@.len());
}

/// A prompt that is typed is followed by Enter, and then by the end of input exactly where
/// the run is unattended; without a prompt nothing is typed.
pub proof fn law_prompt_is_typed_and_entered(spec: CommandView)
    ensures
        match spec.stdin_prompt {
            None => manager::typed(spec).len() == 0,
            Some(prompt) => {
                let bytes = vstd::utf8::encode_utf8(prompt);
                let typed = manager::typed(spec);
                &&& typed.take(bytes.len() as int) == bytes
                &&& typed[bytes.len() as int] == 13
                &&& spec.stdin_eof ==> typed.len() == bytes.len() + 2 && typed[bytes.len() as int + 1] == 4
                &&& !spec.stdin_eof ==> typed.len() == bytes.len() + 1
            },
        },
{
    if let Some(prompt) = spec.stdin_prompt {
        let bytes = vstd::utf8::encode_utf8(prompt);
        assert(manager::typed(spec).take(bytes.len() as int) =~= bytes);
    }
}

/// Hooks are posted to the host that is listened on: on the loopback where that stands for
/// every address, in brackets where it is of version six.
pub proof fn law_hooks_are_posted_to_the_listener(address: Seq<char>, is_v6: bool, port: u16)
    ensures
        manager::hook_base(address, is_v6, true, port) == "http://"@ + "127.0.0.1"@ + ":"@
            + text::decimal(port as nat) + "/agent-hooks/"@ + product::command(),
        manager::hook_base(address, false, false, port) == "http://"@ + address + ":"@
            + text::decimal(port as nat) + "/agent-hooks/"@ + product::command(),
        manager::hook_base(address, true, false, port) == "http://"@ + ("["@ + address + "]"@)
            + ":"@ + text::decimal(port as nat) + "/agent-hooks/"@ + product::command(),
{
}

/// What is kept of some output is its last MiB: nothing is lost of less.
pub proof fn law_last_mebibyte_is_kept(output: Seq<u8>)
    ensures
        ({
            let kept = manager::retained(output);
            &&& kept.len() == if output.len() <= 1048576 {
                output.len()
            } else {
                1048576
            }
            &&& forall|i: int|
                0 <= i < kept.len() ==> #[trigger] kept[i] == output[output.len() - kept.len() + i]
        }),
{
}

/// A line that grew beyond 64 KiB is searched no more; one that did not is.
pub proof fn law_long_lines_are_dropped(bytes: Seq<u8>)
    ensures
        bytes.len() <= 65536 ==> manager::searched(bytes) == bytes,
        bytes.len() > 65536 ==> manager::searched(bytes).len() == 0,
{
}

/// The id of a session is that of the first complete line that carries one: a line without
/// one is passed over, and what stands behind the line of the id is left.
pub proof fn law_first_id_is_found(bytes: Seq<u8>, key: Seq<char>)
    ensures
        ({
            let at = lines::feed_at(bytes);
            let found = manager::id_in_lines(bytes, key);
            if 0 <= at < bytes.len() {
                let line = text::trimmed(text::chomped(lines::lossy_text(bytes.take(at + 1))));
                let id = match tree::parsed_text(line) {
                    Some(value) => match value.get(key) {
                        Some(tree::JsonView::Str(id)) => Some(id),
                        _ => None,
                    },
                    None => None,
                };
                if line.len() > 0 && line[0] == '{' && id is Some {
                    found == (id, bytes.skip(at + 1))
                } else {
                    found == manager::id_in_lines(bytes.skip(at + 1), key)
                }
            } else {
                found == (None::<Seq<char>>, bytes)
            }
        }),
{
    reveal_strlit("{");
    let at = lines::feed_at(bytes);
    lines::lemma_feed_bounds(bytes);
    if 0 <= at < bytes.len() {
        let line = text::trimmed(text::chomped(lines::lossy_text(bytes.take(at + 1))));
        if line.len() > 0 && line[0] == '{' {
            assert(line.subrange(0, 1) =~= "{"@);
            assert(text::stands_at(line, "{"@, 0));
        }
        if text::stands_at(line, "{"@, 0) {
            assert("{"@.len() == 1 && "{"@[0] == '{');
            assert(line.subrange(0, 1)[0] == line[0]);
            assert(line.len() > 0 && line[0] == '{');
        }
    }
}

/// Enter is pressed while the agent runs, has not reacted and presses are left, and in no
/// other case.
pub proof fn law_enter_is_pressed_until_a_reaction(s: Submitter)
    ensures
        s.presses(true) <==> !s.reacted && s.sent < s.max_sends,
        !s.presses(false),
{
}

} // verus!
