//! What callers of the smaller decisions can rely on.
use crate::agent_hooks::AgentHookLaunch;
use crate::agents::agent;
use crate::agents::agent::{AgentContext, CommandSpec, TitleStep};
use crate::agents::manager;
use crate::agents::manager::ListenHost;
use crate::agents::opencode::observer;
use crate::agents::state::StateSourceConfig;
use crate::attention;
use crate::attention::{ActionView, WatchAction, WatchEnd};
use crate::paths;
use crate::text;
use vstd::prelude::*;

verus! {

/// A terminal keeps the size that it is asked for, but for a side of zero, which is one.
pub proof fn law_terminal_has_no_empty_side(rows: u16, cols: u16, size: (u16, u16))
    requires
        call_ensures(manager::terminal_size, (rows, cols), size),
    ensures
        size.0 >= 1 && size.1 >= 1,
        rows >= 1 ==> size.0 == rows,
        cols >= 1 ==> size.1 == cols,
        rows == 0 ==> size.0 == 1,
        cols == 0 ==> size.1 == 1,
{
}

/// The first output is waited for while there was none, the child runs, and fifteen seconds
/// have not passed.
pub proof fn law_first_output_is_waited_for(ticks: u64, running: bool, waited_ms: u64, wait: bool)
    requires
        call_ensures(manager::awaits_first_output, (ticks, running, waited_ms), wait),
    ensures
        wait <==> ticks == 0 && running && waited_ms < 15000,
{
}

/// Only an unattended run of an agent that does not report its session starts with the
/// session of its caller.
pub proof fn law_seeded_session(
    headless: bool,
    has_probe: bool,
    ctx: &AgentContext,
    id: Option<String>,
)
    requires
        call_ensures(manager::seeded_session_id, (headless, has_probe, ctx), id),
    ensures
        !headless || has_probe ==> id is None,
        headless && !has_probe ==> (id is Some <==> ctx.session_id is Some),
        headless && !has_probe && id is Some ==> id->0@ == ctx.session_id->0@,
{
}

/// An agent sees its launch as it is when it chooses how it is observed.
pub proof fn law_launch_is_described(
    headless: bool,
    ctx: &AgentContext,
    spec: &CommandSpec,
    hook_router: bool,
    cfg: StateSourceConfig,
)
    requires
        call_ensures(manager::source_config, (headless, ctx, spec, hook_router), cfg),
    ensures
        cfg.headless == headless,
        cfg.hook_router == hook_router,
        cfg.managed_session == ctx.managed_session,
        cfg.program@ == spec.program@,
        text::views(cfg.args@) == text::views(spec.args@),
        cfg.env@ == spec.env@,
        cfg.cwd is Some <==> spec.cwd is Some,
        cfg.cwd is Some ==> cfg.cwd->0@ == spec.cwd->0@,
{
}

/// A lost subscription is tried again after a pause, ten times at most, and not once the
/// session has ended or nobody listens.
pub proof fn law_subscription_is_tried_again(
    attempt: u32,
    ended: bool,
    closed: bool,
    pause_ms: Option<u64>,
)
    requires
        call_ensures(observer::next_attempt, (attempt, ended, closed), pause_ms),
    ensures
        pause_ms is Some <==> !ended && !closed && attempt < 10,
{
}

/// A title that is not blank is found whenever it comes; a blank one is waited for as long
/// as questions are left, and then given up.
pub proof fn law_title_is_waited_for(
    answer: Option<&str>,
    attempt: u32,
    attempts: u32,
    step: TitleStep,
)
    requires
        attempt < attempts,
        call_ensures(agent::title_step, (answer, attempt, attempts), step),
    ensures
        answer is Some && text::trimmed(answer->0@).len() > 0 ==> step is Found
            && step->Found_0@ == text::trimmed(answer->0@),
        (answer is None || text::trimmed(answer->0@).len() == 0) && attempt + 1 < attempts
            ==> step == TitleStep::Wait,
        (answer is None || text::trimmed(answer->0@).len() == 0) && attempt + 1 == attempts
            ==> step == TitleStep::GiveUp,
{
}

/// Whether a turn is done is asked every three seconds, of an agent that has turns.
pub proof fn law_turns_are_asked_for(has_turns: bool, since_last_ms: u64, due: bool)
    requires
        call_ensures(attention::probe_due, (has_turns, since_last_ms), due),
    ensures
        due <==> has_turns && since_last_ms >= 3000,
{
}

/// A turn that was found done ends the run as it went, before any exit code does.
pub proof fn law_turn_ends_the_run(finished: Option<bool>, exit_code: Option<i32>, end: WatchEnd)
    requires
        call_ensures(attention::watch_end, (finished, exit_code), end),
    ensures
        finished == Some(true) ==> end == (WatchEnd::TurnFinished { success: true }),
        finished == Some(false) ==> end == (WatchEnd::TurnFinished { success: false }),
        finished is None ==> end == WatchEnd::Exited(exit_code),
{
}

/// When a run has ended its session no longer waits, and its task goes back to running.
pub proof fn law_ended_run_waits_no_more(has_task: bool, actions: Vec<WatchAction>)
    requires
        call_ensures(attention::finish, (has_task,), actions),
    ensures
        ({
            let done = attention::action_views(actions@);
            &&& done.len() == if has_task {
                2nat
            } else {
                1
            }
            &&& done[0] == ActionView::Show(None)
            &&& has_task ==> done[1] == ActionView::Resume
        }),
{
}

/// Hooks are there exactly where the daemon listens, and have a directory of their own in
/// its data.
pub proof fn law_hooks_need_a_listener(
    host: &ListenHost,
    port: u16,
    data_dir: &str,
    launch: Option<AgentHookLaunch>,
    silent: Option<AgentHookLaunch>,
)
    requires
        call_ensures(manager::configure_hooks, (Some((host, port)), data_dir), launch),
        call_ensures(manager::configure_hooks, (None, data_dir), silent),
    ensures
        silent is None,
        launch is Some,
        launch->0.dir@ == paths::joined(data_dir@, "agent-hooks"@),
        launch->0.endpoint@ == manager::hook_base(
            host.address@,
            host.is_v6,
            host.unspecified,
            port,
        ),
{
}

} // verus!
