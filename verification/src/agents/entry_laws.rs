//! What callers of the parsers, the mapper, the plans and the screens can rely on.
use crate::agents::agent::{
    AgentContext, CommandSpec, Invocation, LaunchError, SubmitStrategy,
};
use crate::agents::claude;
use crate::agents::claude::stream_json::ClaudeStreamJsonParser;
use crate::agents::configurable::TemplateAgent;
use crate::agents::detect;
use crate::agents::launch_laws;
use crate::agents::opencode::event_laws;
use crate::agents::opencode::json::OpenCodeJsonlParser;
use crate::agents::opencode::observer;
use crate::agents::opencode::observer::Mapper;
use crate::agents::opencode::server::Endpoint;
use crate::agents::opencode::OpenCodeAgent;
use crate::agents::pi;
use crate::agents::pi::json::PiJsonlParser;
use crate::agents::plain_jsonl::PlainJsonlParser;
use crate::agents::registry::Agent;
use crate::agents::screen_laws;
use crate::agents::terms;
use crate::agents::vibe;
use crate::agents::vibe::session_index::SessionStore;
use crate::agents::vibe::stream::{VibeState, VibeStreamParser};
use crate::json::Json;
use crate::lines;
use crate::model;
use crate::model::{AgentStateEvent, AwaitingInputReason, EventView, IdleOutcome};
use crate::text;
use vstd::prelude::*;

verus! {

/// Whether the events from `from` on tell that the session is at rest, with this outcome
/// and no other.
pub open spec fn rests_as(events: Seq<EventView>, from: int, outcome: IdleOutcome) -> bool {
    &&& exists|i: int|
        from <= i < events.len() && #[trigger] events[i] == (EventView::Idle { outcome })
    &&& forall|i: int|
        from <= i < events.len() && #[trigger] events[i] is Idle ==> events[i] == (
        EventView::Idle { outcome })
}

/// After a result row that is an error the outcome of Vibe's summary is a failure, after any
/// other it is success, and the same outcome is told.
pub proof fn law_vibe_result_is_reported(parser: &mut VibeStreamParser, value: &Json)
    requires
        vibe::row_laws::row(value@, "result"@),
        call_ensures(VibeStreamParser::process_value, (parser, value), ()),
    ensures
        ({
            let outcome = if terms::affirmed(value@.get("is_error"@)) {
                IdleOutcome::Failed
            } else {
                IdleOutcome::Succeeded
            };
            &&& final(parser)@.summary.outcome == Some(outcome)
            &&& final(parser)@.events.take(old(parser)@.events.len() as int) =~= old(parser)@.events
            &&& rests_as(final(parser)@.events, old(parser)@.events.len() as int, outcome)
        }),
{
    let s = old(parser)@;
    vibe::row_laws::law_result_decides_the_outcome(s, value@);
    let t = s.on_record(value@);
    assert(final(parser)@ == t);
    let wrong = terms::affirmed(value@.get("is_error"@));
    let message = terms::either(
        terms::words(value@.get("error"@)),
        terms::words(value@.get("subtype"@)),
    );
    let outcome = if wrong {
        IdleOutcome::Failed
    } else {
        IdleOutcome::Succeeded
    };
    let front = s.events + vibe::row_laws::turn_told(s, value@);
    let at = front.len() + 1 + (if wrong && message.len() > 0 {
        1int
    } else {
        0
    });
    assert(t.events[at as int] == (EventView::Idle { outcome }));
}

/// An error of the model is told by pi's parser with its message and kept in the summary;
/// the run that then settles has failed.
pub proof fn law_pi_error_is_reported(
    parser: &mut PiJsonlParser,
    value: &Json,
    settled: crate::json::JsonView,
)
    requires
        pi::row_laws::record(value@, "message_update"@),
        pi::row_laws::update(value@, "type"@) == "error"@,
        pi::row_laws::record(settled, "agent_settled"@),
        call_ensures(PiJsonlParser::process_value, (parser, value), ()),
    ensures
        ({
            let message = terms::either(
                pi::row_laws::update(value@, "error"@),
                terms::either(terms::words(value@.get("error"@)), "agent error"@),
            );
            &&& final(parser)@.events =~= old(parser)@.events.push(EventView::Error { message })
            &&& final(parser)@.summary.error == Some(message)
            &&& final(parser)@.on_record(settled).summary.outcome == Some(IdleOutcome::Failed)
        }),
{
    let s = old(parser)@;
    reveal_strlit("error");
    reveal_strlit("text_delta");
    reveal_strlit("thinking_delta");
    assert("error"@.len() == 5 && "text_delta"@.len() == 10 && "thinking_delta"@.len() == 14);
    pi::row_laws::law_update_tells_its_piece(s, value@);
    pi::row_laws::law_settled_run_ends(s.on_record(value@), settled);
}

/// After a final row that is an error the outcome of a `ClaudeAgent`'s summary is a failure,
/// after any other it is success.
pub proof fn law_claude_result_is_reported(parser: &mut ClaudeStreamJsonParser, value: &Json)
    requires
        claude::row_laws::row(value@, "result"@),
        call_ensures(ClaudeStreamJsonParser::process_value, (parser, value), ()),
    ensures
        final(parser)@.summary.outcome == Some(
            if terms::affirmed(value@.get("is_error"@)) {
                IdleOutcome::Failed
            } else {
                IdleOutcome::Succeeded
            },
        ),
{
    claude::row_laws::law_result_decides_the_outcome(old(parser)@, value@);
}

/// A screen whose last eight lines say how to cancel, in any case, and number at least two
/// entries of a menu, however many more, shows a dialog of a `ClaudeAgent`; so does one that
/// asks whether to proceed; no other does.
pub proof fn law_dialog_is_seen(shown: &str, why: Option<AwaitingInputReason>)
    requires
        call_ensures(detect::claude_awaiting_input, (shown,), why),
    ensures
        ({
            let lines = screen_laws::bottom(shown@, 8);
            &&& why is Some <==> screen_laws::say(lines, "do you want to proceed"@) || (
            screen_laws::say(lines, "esc to cancel"@) && screen_laws::menu(lines))
            &&& why is Some ==> why->0@ == screen_laws::waits_on(lines)
        }),
{
    screen_laws::law_numbered_menu_with_a_way_out_is_a_dialog(shown@);
}

/// The same question asked of the text in lower case and the number of its entries.
pub proof fn law_two_entries_are_enough(lower: &str, numbered: usize, yes: bool)
    requires
        call_ensures(detect::is_claude_dialog, (lower, numbered), yes),
    ensures
        numbered >= 2 && text::occurs(lower@, "esc to cancel"@) ==> yes,
        text::occurs(lower@, "do you want to proceed"@) ==> yes,
        yes ==> text::occurs(lower@, "do you want to proceed"@) || (numbered >= 2 && text::occurs(
            lower@,
            "esc to cancel"@,
        )),
{
}

/// A screen whose last six lines speak of a permission and offer at least two answers shows
/// a dialog of opencode, and no other does.
pub proof fn law_permission_dialog_is_seen(shown: &str, why: Option<AwaitingInputReason>)
    requires
        call_ensures(detect::opencode_awaiting_input, (shown,), why),
    ensures
        ({
            let lines = screen_laws::bottom(shown@, 6);
            &&& why is Some <==> (screen_laws::say(lines, "permission"@) || screen_laws::say(
                lines,
                "allow"@,
            ) || screen_laws::say(lines, "reject"@)) && exists|i: int, j: int|
                0 <= i < j < lines.len() && screen_laws::answer(#[trigger] lines[i])
                    && screen_laws::answer(#[trigger] lines[j])
            &&& why is Some ==> why->0@ == screen_laws::waits_on(lines)
        }),
{
    screen_laws::law_two_answers_make_a_dialog(shown@);
}

/// A quiet screen whose last five lines hold a menu, confirm a dialog or ask a question that
/// urges an answer shows a prompt, and no other does.
pub proof fn law_prompt_is_seen(shown: &str, why: Option<AwaitingInputReason>)
    requires
        call_ensures(detect::generic_awaiting_input, (shown,), why),
    ensures
        ({
            let lines = screen_laws::bottom(shown@, 5);
            &&& why is Some <==> screen_laws::menu(lines) || exists|i: int|
                0 <= i < lines.len() && (screen_laws::confirms(#[trigger] lines[i]) || (
                screen_laws::asks(lines[i]) && screen_laws::urges(lines[i])))
            &&& why is Some ==> why->0@ == screen_laws::waits_on(lines)
        }),
{
    screen_laws::law_quiet_screen_is_a_prompt(shown@);
}

/// Where the context of a launch names a directory, the command that any agent plans for it,
/// whatever the invocation, runs in exactly that directory; only without one does it run in
/// the configured one.
pub proof fn law_command_runs_in_its_directory(
    agent: &Agent,
    invocation: &Invocation<'_>,
    ctx: &AgentContext,
    endpoint: &Option<Endpoint>,
    plan: Result<CommandSpec, LaunchError>,
)
    requires
        call_ensures(Agent::command, (agent, invocation, ctx, endpoint), plan),
        plan is Ok,
    ensures
        ctx.cwd is Some ==> plan->Ok_0.cwd is Some && plan->Ok_0.cwd->0@ == ctx.cwd->0@,
        ctx.cwd is None ==> plan->Ok_0@.cwd == agent@.config.cwd,
        plan->Ok_0.program@ == agent@.config.command,
{
    launch_laws::law_launch_runs_where_it_is_told(
        agent@,
        *invocation,
        ctx@,
        crate::agents::opencode::server::opt_endpoint(*endpoint),
    );
}

/// Every launch that a template finishes runs the configured program with the given
/// arguments, in the directory of its context, else in the configured one, and with the
/// configured variables.
pub proof fn law_finished_launch(
    template: &TemplateAgent,
    ctx: &AgentContext,
    args: Vec<String>,
    stdin_prompt: Option<String>,
    stdin_eof: bool,
    submit: SubmitStrategy,
    spec: CommandSpec,
)
    requires
        call_ensures(TemplateAgent::finish, (template, ctx, args, stdin_prompt, stdin_eof, submit), spec),
    ensures
        ctx.cwd is Some ==> spec.cwd is Some && spec.cwd->0@ == ctx.cwd->0@,
        ctx.cwd is None ==> (spec.cwd is Some <==> template.config.cwd is Some),
        ctx.cwd is None && spec.cwd is Some ==> spec.cwd->0@ == template.config.cwd->0@,
        spec.program@ == template.config.command@,
        text::views(spec.args@) == text::views(args@),
        spec.env@ == template.config.env@,
        spec.stdin_prompt is Some <==> stdin_prompt is Some,
        stdin_prompt is Some ==> spec.stdin_prompt->0@ == stdin_prompt->0@,
        spec.stdin_eof == stdin_eof,
        spec.submit == submit,
{
    assert(spec@.cwd == model::opt_text(spec.cwd));
    assert(ctx@.cwd == model::opt_text(ctx.cwd));
    assert(template.config@.cwd == model::opt_text(template.config.cwd));
    assert(spec@.stdin_prompt == model::opt_text(spec.stdin_prompt));
}

/// An error of the observed session tells exactly one event, an error with the message that
/// it carries, and no event but those for it tell that the session is at rest.
pub proof fn law_session_error_is_reported(
    mapper: &mut Mapper,
    value: &Json,
    session: &str,
    events: Vec<AgentStateEvent>,
)
    requires
        call_ensures(Mapper::map, (mapper, value, session), events),
    ensures
        ({
            let told = model::event_views(events@);
            let kind = terms::words(value@.get("type"@));
            &&& (event_laws::belongs(value@, session@) && (kind == "session.error"@ || kind
                == "session.step.failed"@)) ==> told.len() == 1 && told[0] == (EventView::Error {
                message: event_laws::complaint(value@),
            })
            &&& forall|i: int|
                0 <= i < told.len() && #[trigger] told[i] == (EventView::Idle {
                    outcome: IdleOutcome::Succeeded,
                }) ==> kind == "session.execution.succeeded"@ || kind == "session.idle"@ || (kind
                    == "session.status"@ && event_laws::reports_idle(value@))
        }),
{
    let s = old(mapper)@;
    let told = model::event_views(events@);
    let kind = terms::words(value@.get("type"@));
    if event_laws::belongs(value@, session@) && (kind == "session.error"@ || kind
        == "session.step.failed"@) {
        event_laws::law_error_is_told_and_is_no_rest(s, value@, session@);
    }
    assert forall|i: int|
        0 <= i < told.len() && #[trigger] told[i] == (EventView::Idle {
            outcome: IdleOutcome::Succeeded,
        }) implies kind == "session.execution.succeeded"@ || kind == "session.idle"@ || (kind
        == "session.status"@ && event_laws::reports_idle(value@)) by {
        event_laws::law_rest_is_told_by_its_own_events_only(s, value@, session@, i);
    }
}

/// The same holds of an event that is mapped by itself.
pub proof fn law_single_error_is_reported(
    value: &Json,
    session: &str,
    events: Vec<AgentStateEvent>,
)
    requires
        call_ensures(observer::map_event, (value, session), events),
        event_laws::event(value@, session@, "session.error"@) || event_laws::event(
            value@,
            session@,
            "session.step.failed"@,
        ),
    ensures
        model::event_views(events@).len() == 1,
        model::event_views(events@)[0] == (EventView::Error {
            message: event_laws::complaint(value@),
        }),
{
    event_laws::law_error_is_told_and_is_no_rest(
        observer::MapperState::fresh(),
        value@,
        session@,
    );
}

/// An unattended run gets its session from the server, so that of its caller is dropped; a
/// session at a terminal keeps its own; only a resumed one has none created.
pub proof fn law_session_is_created_unless_resumed(
    agent: &OpenCodeAgent,
    invocation: &Invocation<'_>,
    ctx: &mut AgentContext,
    create: bool,
)
    requires
        call_ensures(OpenCodeAgent::prepare_launch, (agent, invocation, ctx), create),
    ensures
        create <==> !(invocation is Resume),
        invocation is Headless ==> final(ctx)@.session_id is None && !final(ctx)@.managed_session,
        !(invocation is Headless) ==> final(ctx)@ == old(ctx)@,
        final(ctx)@.cwd == old(ctx)@.cwd,
        final(ctx)@.prompt == old(ctx)@.prompt,
        final(ctx)@.model == old(ctx)@.model,
        final(ctx)@.provider == old(ctx)@.provider,
{
}

/// A created session is that of the launch, managed by the server; at a terminal its prompt
/// seeds it, an unattended run submits its own.
pub proof fn law_created_session_is_taken(
    agent: &OpenCodeAgent,
    headless: bool,
    session: &str,
    ctx: &mut AgentContext,
    seed: Option<String>,
)
    requires
        call_ensures(OpenCodeAgent::session_created, (agent, headless, session, ctx), seed),
    ensures
        final(ctx)@.session_id == Some(session@),
        final(ctx)@.managed_session,
        final(ctx)@.prompt == old(ctx)@.prompt,
        final(ctx)@.cwd == old(ctx)@.cwd,
        headless ==> seed is None,
        !headless && old(ctx)@.prompt is Some ==> seed is Some && seed->0@ == old(ctx)@.prompt->0,
        !headless && old(ctx)@.prompt is None ==> seed is None,
{
}

/// The end of a run of a `ClaudeAgent` without a reported outcome tells how it went: it failed after an
/// error or a bad exit, succeeded after a final row, and was interrupted otherwise. Output without rows tells nothing.
pub proof fn law_claude_run_ends(parser: &mut ClaudeStreamJsonParser, exit_code: Option<i32>)
    requires
        !old(parser)@.finished,
        old(parser)@.summary.outcome is None,
        lines::last_line(old(parser).unread()).len() == 0,
        call_ensures(ClaudeStreamJsonParser::finish, (parser, exit_code), ()),
    ensures
        final(parser)@.finished,
        !old(parser)@.saw_structured ==> final(parser)@.events =~= old(parser)@.events
            && final(parser)@.summary.outcome is None,
        old(parser)@.saw_structured ==> {
            let outcome = if old(parser)@.saw_error || terms::failed_exit(exit_code) {
                IdleOutcome::Failed
            } else if old(parser)@.saw_result {
                IdleOutcome::Succeeded
            } else {
                IdleOutcome::Interrupted
            };
            &&& final(parser)@.summary.outcome == Some(outcome)
            &&& final(parser)@.events =~= old(parser)@.events.push(EventView::Idle { outcome })
            &&& final(parser)@.summary.text == old(parser)@.summary.text
            &&& final(parser)@.summary.error == old(parser)@.summary.error
        },
{
    claude::row_laws::law_end_tells_the_outcome(old(parser)@, old(parser).unread(), exit_code);
}

/// The end of a run of opencode without a reported outcome tells how it went: it failed after an
/// error or a bad exit, succeeded after a step that stopped, and was interrupted otherwise. Output without rows tells nothing.
pub proof fn law_opencode_run_ends(parser: &mut OpenCodeJsonlParser, exit_code: Option<i32>)
    requires
        !old(parser)@.finished,
        old(parser)@.summary.outcome is None,
        lines::last_line(old(parser).unread()).len() == 0,
        call_ensures(OpenCodeJsonlParser::finish, (parser, exit_code), ()),
    ensures
        final(parser)@.finished,
        !old(parser)@.saw_structured ==> final(parser)@.events =~= old(parser)@.events
            && final(parser)@.summary.outcome is None,
        old(parser)@.saw_structured ==> {
            let outcome = if old(parser)@.saw_error || terms::failed_exit(exit_code) {
                IdleOutcome::Failed
            } else if old(parser)@.saw_final_step {
                IdleOutcome::Succeeded
            } else {
                IdleOutcome::Interrupted
            };
            &&& final(parser)@.summary.outcome == Some(outcome)
            &&& final(parser)@.events =~= old(parser)@.events.push(EventView::Idle { outcome })
            &&& final(parser)@.summary.text == old(parser)@.summary.text
            &&& final(parser)@.summary.error == old(parser)@.summary.error
        },
{
    crate::agents::opencode::row_laws::law_end_tells_the_outcome(
        old(parser)@,
        old(parser).unread(),
        exit_code,
    );
}

/// The end of a run of plain rows without a reported outcome tells how it went: it failed after an
/// error or a bad exit, and succeeded otherwise. Output without rows tells nothing.
pub proof fn law_plain_run_ends(parser: &mut PlainJsonlParser, exit_code: Option<i32>)
    requires
        !old(parser)@.finished,
        old(parser)@.summary.outcome is None,
        lines::last_line(old(parser).unread()).len() == 0,
        call_ensures(PlainJsonlParser::finish, (parser, exit_code), ()),
    ensures
        final(parser)@.finished,
        !old(parser)@.saw_structured ==> final(parser)@.events =~= old(parser)@.events
            && final(parser)@.summary.outcome is None,
        old(parser)@.saw_structured ==> {
            let outcome = if old(parser)@.saw_error || terms::failed_exit(exit_code) {
                IdleOutcome::Failed
            } else {
                IdleOutcome::Succeeded
            };
            &&& final(parser)@.summary.outcome == Some(outcome)
            &&& final(parser)@.events =~= old(parser)@.events.push(EventView::Idle { outcome })
            &&& final(parser)@.summary.text == old(parser)@.summary.text
            &&& final(parser)@.summary.error == old(parser)@.summary.error
        },
{
    crate::agents::plain_laws::law_end_tells_the_outcome(
        old(parser)@,
        old(parser).unread(),
        exit_code,
    );
}

/// The end of a run of Vibe without a reported outcome tells how it went: it failed after an
/// error or a bad exit, succeeded after something was completed, and was interrupted otherwise. Output without rows tells nothing.
pub proof fn law_vibe_run_ends(parser: &mut VibeStreamParser, exit_code: Option<i32>, store: &Option<SessionStore>)
    requires
        !old(parser)@.finished,
        old(parser)@.summary.outcome is None,
        lines::last_line(old(parser).unread()).len() == 0,
        old(parser)@.index is None,
        call_ensures(VibeStreamParser::finish, (parser, exit_code, store), ()),
    ensures
        final(parser)@.finished,
        !old(parser)@.saw_structured ==> final(parser)@.events =~= old(parser)@.events
            && final(parser)@.summary.outcome is None,
        old(parser)@.saw_structured ==> {
            let outcome = if old(parser)@.saw_error || terms::failed_exit(exit_code) {
                IdleOutcome::Failed
            } else if old(parser)@.saw_completion {
                IdleOutcome::Succeeded
            } else {
                IdleOutcome::Interrupted
            };
            &&& final(parser)@.summary.outcome == Some(outcome)
            &&& final(parser)@.events =~= old(parser)@.events.push(EventView::Idle { outcome })
            &&& final(parser)@.summary.text == old(parser)@.summary.text
            &&& final(parser)@.summary.error == old(parser)@.summary.error
        },
{
    let s = VibeState { finished: true, ..old(parser)@ };
    vibe::row_laws::law_a_reported_outcome_stands(s, exit_code, *store);
    if s.saw_structured {
        let t = s.concluded(exit_code, *store);
        assert(t.events =~= s.events.push(t.events.last()));
    }
}

} // verus!
