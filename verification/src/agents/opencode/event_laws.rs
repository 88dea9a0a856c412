//! What each event of a session of opencode tells.
use crate::agents::opencode::observer;
use crate::agents::opencode::observer::{MapStep, MapperState};
use crate::agents::terms;
use crate::json as tree;
use crate::json::JsonView;
use crate::model::{
    AgentUsage, AwaitingInputKind, EventView, IdleOutcome, InputRequestView, MessageRole,
};
use crate::text;
use vstd::prelude::*;

verus! {

/// The value of a field of a field of a field.
pub open spec fn deep(value: JsonView, a: Seq<char>, b: Seq<char>, c: Seq<char>) -> Option<JsonView> {
    match terms::inside(value, a, b) {
        Some(v) => v.get(c),
        None => None,
    }
}

/// The value that an event carries under `key` in its data.
pub open spec fn datum(value: JsonView, key: Seq<char>) -> Option<JsonView> {
    terms::inside(value, "data"@, key)
}

/// Whether a value is a string.
pub open spec fn written(v: Option<JsonView>) -> bool {
    v matches Some(JsonView::Str(_))
}

/// The first of five values that is a string; nothing where none is.
pub open spec fn first_written(
    a: Option<JsonView>,
    b: Option<JsonView>,
    c: Option<JsonView>,
    d: Option<JsonView>,
    e: Option<JsonView>,
) -> Option<JsonView> {
    if written(a) {
        a
    } else if written(b) {
        b
    } else if written(c) {
        c
    } else if written(d) {
        d
    } else if written(e) {
        e
    } else {
        None
    }
}

/// Whether an event belongs to the session: the first text among the places where events
/// name theirs is its id.
pub open spec fn belongs(value: JsonView, session: Seq<char>) -> bool {
    first_written(
        datum(value, "sessionID"@),
        deep(value, "data"@, "part"@, "sessionID"@),
        value.get("sessionID"@),
        terms::inside(value, "properties"@, "sessionID"@),
        deep(value, "properties"@, "part"@, "sessionID"@),
    ) == Some(JsonView::Str(session))
}

/// Whether an event is of this type and belongs to the session.
pub open spec fn event(value: JsonView, session: Seq<char>, kind: Seq<char>) -> bool {
    belongs(value, session) && terms::words(value.get("type"@)) == kind
}

/// Whether an event tells these events and leaves what is remembered alone.
pub open spec fn just(state: MapperState, value: JsonView, session: Seq<char>, told: Seq<EventView>) -> bool {
    state.on_event(value, session).state == state && state.on_event(value, session).told =~= told
}

/// The first of three values that is there.
pub open spec fn first3(a: Option<JsonView>, b: Option<JsonView>, c: Option<JsonView>) -> Option<JsonView> {
    if a is Some {
        a
    } else if b is Some {
        b
    } else {
        c
    }
}

/// The message of an error: what it says, else its type, else the message beside it; a
/// blank one is replaced.
pub open spec fn complaint(value: JsonView) -> Seq<char> {
    let message = terms::words(
        first3(
            deep(value, "data"@, "error"@, "message"@),
            deep(value, "data"@, "error"@, "type"@),
            datum(value, "message"@),
        ),
    );
    if text::trimmed(message).len() == 0 {
        "opencode error"@
    } else {
        message
    }
}

/// The piece of text that a value carries.
pub open spec fn piece(value: JsonView) -> Seq<char> {
    terms::words(
        first_written(
            value.get("delta"@),
            value.get("text"@),
            terms::inside(value, "properties"@, "delta"@),
            deep(value, "properties"@, "part"@, "text"@),
            terms::inside(value, "part"@, "text"@),
        ),
    )
}

/// The data of an event.
pub open spec fn body(value: JsonView) -> JsonView {
    match value.get("data"@) {
        Some(data) => data,
        None => JsonView::Null,
    }
}

/// A text as a piece of an answer; an empty one is not told.
pub open spec fn spoken(piece: Seq<char>) -> Seq<EventView> {
    if piece.len() > 0 {
        seq![EventView::TextDelta { role: MessageRole::Assistant, text: piece }]
    } else {
        Seq::empty()
    }
}

/// A text as a piece of reasoning; an empty one is not told.
pub open spec fn pondered(piece: Seq<char>) -> Seq<EventView> {
    if piece.len() > 0 {
        seq![EventView::ReasoningDelta { text: piece }]
    } else {
        Seq::empty()
    }
}

/// The usage that a value reports.
pub open spec fn spent(value: JsonView) -> AgentUsage {
    AgentUsage {
        input_tokens: terms::tally(terms::inside(value, "tokens"@, "input"@)),
        output_tokens: terms::tally(terms::inside(value, "tokens"@, "output"@)),
        reasoning_tokens: terms::tally(terms::inside(value, "tokens"@, "reasoning"@)),
        cache_read_tokens: terms::tally(deep(value, "tokens"@, "cache"@, "read"@)),
        cache_write_tokens: terms::tally(deep(value, "tokens"@, "cache"@, "write"@)),
        cost_usd: terms::dollars(value.get("cost"@)),
    }
}

/// The usage that a value reports, told unless it is nothing at all.
pub open spec fn accounted(value: JsonView) -> Seq<EventView> {
    let u = spent(value);
    if u.input_tokens == 0 && u.output_tokens == 0 && u.reasoning_tokens == 0 && u.cache_read_tokens
        == 0 && u.cache_write_tokens == 0 && u.cost_usd is None {
        Seq::empty()
    } else {
        seq![EventView::Usage { usage: u }]
    }
}

/// An update of the tool call that an event names.
pub open spec fn progress(value: JsonView, partial: JsonView) -> Seq<EventView> {
    match datum(value, "id"@) {
        Some(JsonView::Str(id)) => seq![EventView::ToolUpdated { id, partial }],
        _ => Seq::empty(),
    }
}

/// A value, or null where there is none.
pub open spec fn plain(v: Option<JsonView>) -> JsonView {
    match v {
        Some(v) => v,
        None => JsonView::Null,
    }
}

/// Whether an event's status says that the session is idle.
pub open spec fn reports_idle(value: JsonView) -> bool {
    let typed = first3(
        deep(value, "properties"@, "status"@, "type"@),
        deep(value, "data"@, "status"@, "type"@),
        None,
    );
    terms::words(
        first3(
            typed,
            terms::inside(value, "properties"@, "status"@),
            terms::inside(value, "data"@, "status"@),
        ),
    ) == "idle"@
}

proof fn lemma_own(value: JsonView, session: Seq<char>)
    ensures
        belongs(value, session) <==> observer::session_of(value) == Some(session),
{
}

proof fn lemma_error(value: JsonView)
    ensures
        observer::error_text(observer::data_of(value)) == complaint(value),
{
}

proof fn lemma_usage(value: JsonView)
    ensures
        observer::usage_told(value) =~= accounted(value),
{
    let u = observer::usage_in(value);
    assert(u == spent(value));
}

proof fn lemma_idle(value: JsonView)
    ensures
        observer::status_idle(value) <==> reports_idle(value),
{
}

/// An event that does not belong to the session changes nothing and tells nothing.
pub proof fn law_event_of_another_session_is_nothing(state: MapperState, value: JsonView, session: Seq<char>)
    requires
        !belongs(value, session),
    ensures
        just(state, value, session, Seq::empty()),
{
    lemma_own(value, session);
}

/// An error of the session or of one of its steps tells exactly one event, an error
/// with the message that it carries, and never that the session is at rest.
pub proof fn law_error_is_told_and_is_no_rest(state: MapperState, value: JsonView, session: Seq<char>)
    requires
        event(value, session, "session.error"@) || event(value, session, "session.step.failed"@),
    ensures
        ({
            let told = state.on_event(value, session).told;
            &&& told.len() == 1
            &&& told[0] == EventView::Error { message: complaint(value) }
            &&& state.on_event(value, session).state == state
        }),
{
    reveal(MapperState::on_own);
    let step = state.on_event(value, session);
    let data = observer::data_of(value);
    assert(value.text("type"@) == terms::words(value.get("type"@)));
    lemma_own(value, session);
    assert(step == state.telling(seq![EventView::Error { message: observer::error_text(data) }])) by {
        reveal_strlit("session.created");
        reveal_strlit("session.renamed");
        reveal_strlit("session.updated");
        reveal_strlit("session.execution.started");
        reveal_strlit("session.step.started");
        reveal_strlit("message.updated");
        reveal_strlit("session.text.delta");
        reveal_strlit("session.reasoning.delta");
        reveal_strlit("session.tool.input.started");
        reveal_strlit("session.tool.input.ended");
        reveal_strlit("session.tool.called");
        reveal_strlit("session.tool.progress");
        reveal_strlit("session.tool.success");
        reveal_strlit("session.tool.failed");
        reveal_strlit("session.step.ended");
        reveal_strlit("session.usage.updated");
        reveal_strlit("session.usage.recorded");
        reveal_strlit("session.execution.succeeded");
        reveal_strlit("session.idle");
        reveal_strlit("session.execution.interrupted");
        reveal_strlit("session.execution.failed");
        reveal_strlit("session.step.failed");
        reveal_strlit("session.error");
        reveal_strlit("permission.asked");
        reveal_strlit("permission.replied");
        reveal_strlit("permission.rejected");
        reveal_strlit("message.part.updated");
        reveal_strlit("session.status");
        assert("session.step.failed"@[8] != "session.tool.called"@[8]);
        assert("session.step.failed"@[8] != "session.tool.failed"@[8]);
        assert("session.step.failed"@[0] != "permission.rejected"@[0]);
    }
    lemma_error(value);
}

/// A failed execution tells its error, and then that the session is at rest, as one
/// that failed.
pub proof fn law_failed_execution_is_told_as_failure(state: MapperState, value: JsonView, session: Seq<char>)
    requires
        event(value, session, "session.execution.failed"@),
    ensures
        just(
            state,
            value,
            session,
            seq![
                EventView::Error { message: complaint(value) },
                EventView::Idle { outcome: IdleOutcome::Failed },
            ],
        ),
{
    reveal(MapperState::on_own);
    let step = state.on_event(value, session);
    let data = observer::data_of(value);
    assert(value.text("type"@) == terms::words(value.get("type"@)));
    lemma_own(value, session);
    assert(step == state.telling(seq![
        EventView::Error { message: observer::error_text(data) },
        EventView::Idle { outcome: IdleOutcome::Failed },
    ])) by {
        reveal_strlit("session.created");
        reveal_strlit("session.renamed");
        reveal_strlit("session.updated");
        reveal_strlit("session.execution.started");
        reveal_strlit("session.step.started");
        reveal_strlit("message.updated");
        reveal_strlit("session.text.delta");
        reveal_strlit("session.reasoning.delta");
        reveal_strlit("session.tool.input.started");
        reveal_strlit("session.tool.input.ended");
        reveal_strlit("session.tool.called");
        reveal_strlit("session.tool.progress");
        reveal_strlit("session.tool.success");
        reveal_strlit("session.tool.failed");
        reveal_strlit("session.step.ended");
        reveal_strlit("session.usage.updated");
        reveal_strlit("session.usage.recorded");
        reveal_strlit("session.execution.succeeded");
        reveal_strlit("session.idle");
        reveal_strlit("session.execution.interrupted");
        reveal_strlit("session.execution.failed");
        reveal_strlit("session.step.failed");
        reveal_strlit("session.error");
        reveal_strlit("permission.asked");
        reveal_strlit("permission.replied");
        reveal_strlit("permission.rejected");
        reveal_strlit("message.part.updated");
        reveal_strlit("session.status");
        assert("session.execution.failed"@[8] != "session.tool.input.ended"@[8]);
    }
    lemma_error(value);
}

/// An interrupted execution tells that the session is at rest, interrupted.
pub proof fn law_interrupted_execution_is_told_as_such(state: MapperState, value: JsonView, session: Seq<char>)
    requires
        event(value, session, "session.execution.interrupted"@),
    ensures
        just(state, value, session, seq![EventView::Idle { outcome: IdleOutcome::Interrupted }]),
{
    reveal(MapperState::on_own);
    let step = state.on_event(value, session);
    let data = observer::data_of(value);
    assert(value.text("type"@) == terms::words(value.get("type"@)));
    lemma_own(value, session);
    assert(step == state.telling(seq![EventView::Idle { outcome: IdleOutcome::Interrupted }])) by {
        reveal_strlit("session.created");
        reveal_strlit("session.renamed");
        reveal_strlit("session.updated");
        reveal_strlit("session.execution.started");
        reveal_strlit("session.step.started");
        reveal_strlit("message.updated");
        reveal_strlit("session.text.delta");
        reveal_strlit("session.reasoning.delta");
        reveal_strlit("session.tool.input.started");
        reveal_strlit("session.tool.input.ended");
        reveal_strlit("session.tool.called");
        reveal_strlit("session.tool.progress");
        reveal_strlit("session.tool.success");
        reveal_strlit("session.tool.failed");
        reveal_strlit("session.step.ended");
        reveal_strlit("session.usage.updated");
        reveal_strlit("session.usage.recorded");
        reveal_strlit("session.execution.succeeded");
        reveal_strlit("session.idle");
        reveal_strlit("session.execution.interrupted");
        reveal_strlit("session.execution.failed");
        reveal_strlit("session.step.failed");
        reveal_strlit("session.error");
        reveal_strlit("permission.asked");
        reveal_strlit("permission.replied");
        reveal_strlit("permission.rejected");
        reveal_strlit("message.part.updated");
        reveal_strlit("session.status");
    }
}

/// An execution that succeeded, an idle session and an idle status tell that the
/// session is at rest, with success.
pub proof fn law_success_is_told_as_such(state: MapperState, value: JsonView, session: Seq<char>)
    requires
        event(value, session, "session.execution.succeeded"@) || event(value, session, "session.idle"@) || (event(value, session, "session.status"@) && reports_idle(value)),
    ensures
        just(state, value, session, seq![EventView::Idle { outcome: IdleOutcome::Succeeded }]),
{
    reveal(MapperState::on_own);
    let step = state.on_event(value, session);
    let data = observer::data_of(value);
    assert(value.text("type"@) == terms::words(value.get("type"@)));
    lemma_own(value, session);
    lemma_idle(value);
    assert(step == state.telling(seq![EventView::Idle { outcome: IdleOutcome::Succeeded }])) by {
        reveal_strlit("session.created");
        reveal_strlit("session.renamed");
        reveal_strlit("session.updated");
        reveal_strlit("session.execution.started");
        reveal_strlit("session.step.started");
        reveal_strlit("message.updated");
        reveal_strlit("session.text.delta");
        reveal_strlit("session.reasoning.delta");
        reveal_strlit("session.tool.input.started");
        reveal_strlit("session.tool.input.ended");
        reveal_strlit("session.tool.called");
        reveal_strlit("session.tool.progress");
        reveal_strlit("session.tool.success");
        reveal_strlit("session.tool.failed");
        reveal_strlit("session.step.ended");
        reveal_strlit("session.usage.updated");
        reveal_strlit("session.usage.recorded");
        reveal_strlit("session.execution.succeeded");
        reveal_strlit("session.idle");
        reveal_strlit("session.execution.interrupted");
        reveal_strlit("session.execution.failed");
        reveal_strlit("session.step.failed");
        reveal_strlit("session.error");
        reveal_strlit("permission.asked");
        reveal_strlit("permission.replied");
        reveal_strlit("permission.rejected");
        reveal_strlit("message.part.updated");
        reveal_strlit("session.status");
    }
}

/// A status that is not idle tells nothing.
pub proof fn law_busy_status_is_nothing(state: MapperState, value: JsonView, session: Seq<char>)
    requires
        event(value, session, "session.status"@),
        !reports_idle(value),
    ensures
        just(state, value, session, Seq::empty()),
{
    reveal(MapperState::on_own);
    let step = state.on_event(value, session);
    let data = observer::data_of(value);
    assert(value.text("type"@) == terms::words(value.get("type"@)));
    lemma_own(value, session);
    lemma_idle(value);
    assert(step == state.silent()) by {
        reveal_strlit("session.created");
        reveal_strlit("session.renamed");
        reveal_strlit("session.updated");
        reveal_strlit("session.execution.started");
        reveal_strlit("session.step.started");
        reveal_strlit("message.updated");
        reveal_strlit("session.text.delta");
        reveal_strlit("session.reasoning.delta");
        reveal_strlit("session.tool.input.started");
        reveal_strlit("session.tool.input.ended");
        reveal_strlit("session.tool.called");
        reveal_strlit("session.tool.progress");
        reveal_strlit("session.tool.success");
        reveal_strlit("session.tool.failed");
        reveal_strlit("session.step.ended");
        reveal_strlit("session.usage.updated");
        reveal_strlit("session.usage.recorded");
        reveal_strlit("session.execution.succeeded");
        reveal_strlit("session.idle");
        reveal_strlit("session.execution.interrupted");
        reveal_strlit("session.execution.failed");
        reveal_strlit("session.step.failed");
        reveal_strlit("session.error");
        reveal_strlit("permission.asked");
        reveal_strlit("permission.replied");
        reveal_strlit("permission.rejected");
        reveal_strlit("message.part.updated");
        reveal_strlit("session.status");
    }
}

/// That the session is at rest is told by no event but those for it, each with its own
/// outcome: success only for an execution that succeeded, an idle session and an idle
/// status.
pub proof fn law_rest_is_told_by_its_own_events_only(state: MapperState, value: JsonView, session: Seq<char>, i: int)
    requires
        0 <= i < state.on_event(value, session).told.len(),
        state.on_event(value, session).told[i] is Idle,
    ensures
        belongs(value, session),
        ({
            let outcome = state.on_event(value, session).told[i]->Idle_outcome;
            let kind = terms::words(value.get("type"@));
            &&& outcome == IdleOutcome::Succeeded <==> (kind == "session.execution.succeeded"@ || kind
                == "session.idle"@ || (kind == "session.status"@ && reports_idle(value)))
            &&& outcome == IdleOutcome::Interrupted <==> kind == "session.execution.interrupted"@
            &&& outcome == IdleOutcome::Failed <==> kind == "session.execution.failed"@
        }),
{
    reveal(MapperState::on_own);
    lemma_own(value, session);
    lemma_idle(value);
    assert(value.text("type"@) == terms::words(value.get("type"@)));
    reveal_strlit("session.created");
    reveal_strlit("session.renamed");
    reveal_strlit("session.updated");
    reveal_strlit("session.execution.started");
    reveal_strlit("session.step.started");
    reveal_strlit("message.updated");
    reveal_strlit("session.text.delta");
    reveal_strlit("session.reasoning.delta");
    reveal_strlit("session.tool.input.started");
    reveal_strlit("session.tool.input.ended");
    reveal_strlit("session.tool.called");
    reveal_strlit("session.tool.progress");
    reveal_strlit("session.tool.success");
    reveal_strlit("session.tool.failed");
    reveal_strlit("session.step.ended");
    reveal_strlit("session.usage.updated");
    reveal_strlit("session.usage.recorded");
    reveal_strlit("session.execution.succeeded");
    reveal_strlit("session.idle");
    reveal_strlit("session.execution.interrupted");
    reveal_strlit("session.execution.failed");
    reveal_strlit("session.step.failed");
    reveal_strlit("session.error");
    reveal_strlit("permission.asked");
    reveal_strlit("permission.replied");
    reveal_strlit("permission.rejected");
    reveal_strlit("message.part.updated");
    reveal_strlit("session.status");
    assert("session.execution.failed"@[8] != "session.tool.input.ended"@[8]);
}

/// An error is told by no event but those for one.
pub proof fn law_errors_are_told_by_their_own_events_only(state: MapperState, value: JsonView, session: Seq<char>, i: int)
    requires
        0 <= i < state.on_event(value, session).told.len(),
        state.on_event(value, session).told[i] is Error,
    ensures
        ({
            let kind = terms::words(value.get("type"@));
            kind == "session.error"@ || kind == "session.step.failed"@ || kind == "session.execution.failed"@
        }),
        state.on_event(value, session).told[i] == (EventView::Error { message: complaint(value) }),
{
    reveal(MapperState::on_own);
    lemma_own(value, session);
    lemma_error(value);
    assert(value.text("type"@) == terms::words(value.get("type"@)));
}

/// A created session is told, and then its title where that is new.
pub proof fn law_creation_tells_the_session(state: MapperState, value: JsonView, session: Seq<char>)
    requires
        event(value, session, "session.created"@),
    ensures
        ({
            let title = text::trimmed(terms::words(datum(value, "title"@)));
            let step = state.on_event(value, session);
            let fresh = title.len() > 0 && state.last_title != Some(title);
            &&& step.told =~= seq![
                EventView::Session { session_id: Some(session), title: None, model: None },
            ] + (if fresh {
                seq![EventView::Title { title }]
            } else {
                Seq::empty()
            })
            &&& step.state == if fresh {
                MapperState { last_title: Some(title), ..state }
            } else {
                state
            }
        }),
{
    reveal(MapperState::on_own);
    let step = state.on_event(value, session);
    let data = observer::data_of(value);
    assert(value.text("type"@) == terms::words(value.get("type"@)));
    lemma_own(value, session);
    assert(step == (MapStep {
        state: state.on_title(data).state,
        told: seq![EventView::Session { session_id: Some(session), title: None, model: None }]
            + state.on_title(data).told,
    })) by {
        reveal_strlit("session.created");
        reveal_strlit("session.renamed");
        reveal_strlit("session.updated");
        reveal_strlit("session.execution.started");
        reveal_strlit("session.step.started");
        reveal_strlit("message.updated");
        reveal_strlit("session.text.delta");
        reveal_strlit("session.reasoning.delta");
        reveal_strlit("session.tool.input.started");
        reveal_strlit("session.tool.input.ended");
        reveal_strlit("session.tool.called");
        reveal_strlit("session.tool.progress");
        reveal_strlit("session.tool.success");
        reveal_strlit("session.tool.failed");
        reveal_strlit("session.step.ended");
        reveal_strlit("session.usage.updated");
        reveal_strlit("session.usage.recorded");
        reveal_strlit("session.execution.succeeded");
        reveal_strlit("session.idle");
        reveal_strlit("session.execution.interrupted");
        reveal_strlit("session.execution.failed");
        reveal_strlit("session.step.failed");
        reveal_strlit("session.error");
        reveal_strlit("permission.asked");
        reveal_strlit("permission.replied");
        reveal_strlit("permission.rejected");
        reveal_strlit("message.part.updated");
        reveal_strlit("session.status");
        assert("session.created"@[8] != "session.renamed"@[8]);
        assert("session.created"@[8] != "session.updated"@[8]);
        assert("session.created"@[0] != "message.updated"@[0]);
    }
}

/// A renamed or updated session tells its title where that is new.
pub proof fn law_rename_tells_a_new_title(state: MapperState, value: JsonView, session: Seq<char>)
    requires
        event(value, session, "session.renamed"@) || event(value, session, "session.updated"@),
    ensures
        ({
            let title = text::trimmed(terms::words(datum(value, "title"@)));
            let step = state.on_event(value, session);
            let fresh = title.len() > 0 && state.last_title != Some(title);
            &&& step.told =~= if fresh {
                seq![EventView::Title { title }]
            } else {
                Seq::empty()
            }
            &&& step.state == if fresh {
                MapperState { last_title: Some(title), ..state }
            } else {
                state
            }
        }),
{
    reveal(MapperState::on_own);
    let step = state.on_event(value, session);
    let data = observer::data_of(value);
    assert(value.text("type"@) == terms::words(value.get("type"@)));
    lemma_own(value, session);
    assert(step == state.on_title(data)) by {
        reveal_strlit("session.created");
        reveal_strlit("session.renamed");
        reveal_strlit("session.updated");
        reveal_strlit("session.execution.started");
        reveal_strlit("session.step.started");
        reveal_strlit("message.updated");
        reveal_strlit("session.text.delta");
        reveal_strlit("session.reasoning.delta");
        reveal_strlit("session.tool.input.started");
        reveal_strlit("session.tool.input.ended");
        reveal_strlit("session.tool.called");
        reveal_strlit("session.tool.progress");
        reveal_strlit("session.tool.success");
        reveal_strlit("session.tool.failed");
        reveal_strlit("session.step.ended");
        reveal_strlit("session.usage.updated");
        reveal_strlit("session.usage.recorded");
        reveal_strlit("session.execution.succeeded");
        reveal_strlit("session.idle");
        reveal_strlit("session.execution.interrupted");
        reveal_strlit("session.execution.failed");
        reveal_strlit("session.step.failed");
        reveal_strlit("session.error");
        reveal_strlit("permission.asked");
        reveal_strlit("permission.replied");
        reveal_strlit("permission.rejected");
        reveal_strlit("message.part.updated");
        reveal_strlit("session.status");
        assert("session.renamed"@[8] != "session.created"@[8]);
        assert("session.renamed"@[8] != "session.updated"@[8]);
        assert("session.renamed"@[0] != "message.updated"@[0]);
        assert("session.updated"@[8] != "session.created"@[8]);
        assert("session.updated"@[0] != "message.updated"@[0]);
    }
}

/// An execution or a step that starts is a turn.
pub proof fn law_started_work_is_a_turn(state: MapperState, value: JsonView, session: Seq<char>)
    requires
        event(value, session, "session.execution.started"@) || event(value, session, "session.step.started"@),
    ensures
        just(state, value, session, seq![EventView::TurnStarted]),
{
    reveal(MapperState::on_own);
    let step = state.on_event(value, session);
    let data = observer::data_of(value);
    assert(value.text("type"@) == terms::words(value.get("type"@)));
    lemma_own(value, session);
    assert(step == state.telling(seq![EventView::TurnStarted])) by {
        reveal_strlit("session.created");
        reveal_strlit("session.renamed");
        reveal_strlit("session.updated");
        reveal_strlit("session.execution.started");
        reveal_strlit("session.step.started");
        reveal_strlit("message.updated");
        reveal_strlit("session.text.delta");
        reveal_strlit("session.reasoning.delta");
        reveal_strlit("session.tool.input.started");
        reveal_strlit("session.tool.input.ended");
        reveal_strlit("session.tool.called");
        reveal_strlit("session.tool.progress");
        reveal_strlit("session.tool.success");
        reveal_strlit("session.tool.failed");
        reveal_strlit("session.step.ended");
        reveal_strlit("session.usage.updated");
        reveal_strlit("session.usage.recorded");
        reveal_strlit("session.execution.succeeded");
        reveal_strlit("session.idle");
        reveal_strlit("session.execution.interrupted");
        reveal_strlit("session.execution.failed");
        reveal_strlit("session.step.failed");
        reveal_strlit("session.error");
        reveal_strlit("permission.asked");
        reveal_strlit("permission.replied");
        reveal_strlit("permission.rejected");
        reveal_strlit("message.part.updated");
        reveal_strlit("session.status");
        assert("session.step.started"@[8] != "session.tool.success"@[8]);
        assert("session.step.started"@[0] != "message.part.updated"@[0]);
    }
}

/// An updated message is a turn where the assistant wrote it, and else nothing.
pub proof fn law_updated_answer_is_a_turn(state: MapperState, value: JsonView, session: Seq<char>)
    requires
        event(value, session, "message.updated"@),
    ensures
        just(
            state,
            value,
            session,
            if terms::words(first3(deep(value, "properties"@, "info"@, "role"@), datum(value, "role"@), None))
                == "assistant"@ {
                seq![EventView::TurnStarted]
            } else {
                Seq::empty()
            },
        ),
{
    reveal(MapperState::on_own);
    let step = state.on_event(value, session);
    let data = observer::data_of(value);
    assert(value.text("type"@) == terms::words(value.get("type"@)));
    lemma_own(value, session);
    assert(step == if observer::role_of(value) == "assistant"@ {
        state.telling(seq![EventView::TurnStarted])
    } else {
        state.silent()
    }) by {
        reveal_strlit("session.created");
        reveal_strlit("session.renamed");
        reveal_strlit("session.updated");
        reveal_strlit("session.execution.started");
        reveal_strlit("session.step.started");
        reveal_strlit("message.updated");
        reveal_strlit("session.text.delta");
        reveal_strlit("session.reasoning.delta");
        reveal_strlit("session.tool.input.started");
        reveal_strlit("session.tool.input.ended");
        reveal_strlit("session.tool.called");
        reveal_strlit("session.tool.progress");
        reveal_strlit("session.tool.success");
        reveal_strlit("session.tool.failed");
        reveal_strlit("session.step.ended");
        reveal_strlit("session.usage.updated");
        reveal_strlit("session.usage.recorded");
        reveal_strlit("session.execution.succeeded");
        reveal_strlit("session.idle");
        reveal_strlit("session.execution.interrupted");
        reveal_strlit("session.execution.failed");
        reveal_strlit("session.step.failed");
        reveal_strlit("session.error");
        reveal_strlit("permission.asked");
        reveal_strlit("permission.replied");
        reveal_strlit("permission.rejected");
        reveal_strlit("message.part.updated");
        reveal_strlit("session.status");
        assert("message.updated"@[0] != "session.created"@[0]);
        assert("message.updated"@[0] != "session.renamed"@[0]);
        assert("message.updated"@[0] != "session.updated"@[0]);
    }
}

/// A piece of the answer or of the reasoning is told as such, unless it is empty.
pub proof fn law_pieces_are_told(state: MapperState, value: JsonView, session: Seq<char>)
    ensures
        event(value, session, "session.text.delta"@) ==> just(state, value, session, spoken(piece(body(value)))),
        event(value, session, "session.reasoning.delta"@) ==> just(state, value, session, pondered(piece(body(value)))),
{
    reveal(MapperState::on_own);
    let data = observer::data_of(value);
    assert(value.text("type"@) == terms::words(value.get("type"@)));
    lemma_own(value, session);
    assert(observer::piece_in(data) == piece(data));
    if event(value, session, "session.text.delta"@) {
        assert(state.on_event(value, session) == state.telling(observer::text_told(data))) by {
            reveal_strlit("session.created");
            reveal_strlit("session.renamed");
            reveal_strlit("session.updated");
            reveal_strlit("session.execution.started");
            reveal_strlit("session.step.started");
            reveal_strlit("message.updated");
            reveal_strlit("session.text.delta");
            reveal_strlit("session.reasoning.delta");
            reveal_strlit("session.tool.input.started");
            reveal_strlit("session.tool.input.ended");
            reveal_strlit("session.tool.called");
            reveal_strlit("session.tool.progress");
            reveal_strlit("session.tool.success");
            reveal_strlit("session.tool.failed");
            reveal_strlit("session.step.ended");
            reveal_strlit("session.usage.updated");
            reveal_strlit("session.usage.recorded");
            reveal_strlit("session.execution.succeeded");
            reveal_strlit("session.idle");
            reveal_strlit("session.execution.interrupted");
            reveal_strlit("session.execution.failed");
            reveal_strlit("session.step.failed");
            reveal_strlit("session.error");
            reveal_strlit("permission.asked");
            reveal_strlit("permission.replied");
            reveal_strlit("permission.rejected");
            reveal_strlit("message.part.updated");
            reveal_strlit("session.status");
            assert("session.text.delta"@[8] != "session.step.ended"@[8]);
            assert("session.text.delta"@[0] != "permission.replied"@[0]);
        }
    }
    if event(value, session, "session.reasoning.delta"@) {
        assert(state.on_event(value, session) == state.telling(observer::reasoning_told(data))) by {
            reveal_strlit("session.created");
            reveal_strlit("session.renamed");
            reveal_strlit("session.updated");
            reveal_strlit("session.execution.started");
            reveal_strlit("session.step.started");
            reveal_strlit("message.updated");
            reveal_strlit("session.text.delta");
            reveal_strlit("session.reasoning.delta");
            reveal_strlit("session.tool.input.started");
            reveal_strlit("session.tool.input.ended");
            reveal_strlit("session.tool.called");
            reveal_strlit("session.tool.progress");
            reveal_strlit("session.tool.success");
            reveal_strlit("session.tool.failed");
            reveal_strlit("session.step.ended");
            reveal_strlit("session.usage.updated");
            reveal_strlit("session.usage.recorded");
            reveal_strlit("session.execution.succeeded");
            reveal_strlit("session.idle");
            reveal_strlit("session.execution.interrupted");
            reveal_strlit("session.execution.failed");
            reveal_strlit("session.step.failed");
            reveal_strlit("session.error");
            reveal_strlit("permission.asked");
            reveal_strlit("permission.replied");
            reveal_strlit("permission.rejected");
            reveal_strlit("message.part.updated");
            reveal_strlit("session.status");
        }
    }
}

/// A tool call starts under its id and its name, which is remembered; one without an id
/// is nothing.
pub proof fn law_tool_starts_under_its_id(state: MapperState, value: JsonView, session: Seq<char>)
    requires
        event(value, session, "session.tool.input.started"@),
    ensures
        ({
            let name = terms::words(datum(value, "name"@));
            match datum(value, "id"@) {
                Some(JsonView::Str(id)) => state.on_event(value, session) == (MapStep {
                    state: MapperState { names: state.names.insert(id, name), ..state },
                    told: seq![EventView::ToolStarted { id, name, input: JsonView::Null }],
                }),
                _ => just(state, value, session, Seq::empty()),
            }
        }),
{
    reveal(MapperState::on_own);
    let step = state.on_event(value, session);
    let data = observer::data_of(value);
    assert(value.text("type"@) == terms::words(value.get("type"@)));
    lemma_own(value, session);
    assert(step == state.on_tool_start(data)) by {
        reveal_strlit("session.created");
        reveal_strlit("session.renamed");
        reveal_strlit("session.updated");
        reveal_strlit("session.execution.started");
        reveal_strlit("session.step.started");
        reveal_strlit("message.updated");
        reveal_strlit("session.text.delta");
        reveal_strlit("session.reasoning.delta");
        reveal_strlit("session.tool.input.started");
        reveal_strlit("session.tool.input.ended");
        reveal_strlit("session.tool.called");
        reveal_strlit("session.tool.progress");
        reveal_strlit("session.tool.success");
        reveal_strlit("session.tool.failed");
        reveal_strlit("session.step.ended");
        reveal_strlit("session.usage.updated");
        reveal_strlit("session.usage.recorded");
        reveal_strlit("session.execution.succeeded");
        reveal_strlit("session.idle");
        reveal_strlit("session.execution.interrupted");
        reveal_strlit("session.execution.failed");
        reveal_strlit("session.step.failed");
        reveal_strlit("session.error");
        reveal_strlit("permission.asked");
        reveal_strlit("permission.replied");
        reveal_strlit("permission.rejected");
        reveal_strlit("message.part.updated");
        reveal_strlit("session.status");
    }
}

/// The complete input of a tool call is told as the value that its text holds.
pub proof fn law_tool_input_is_told(state: MapperState, value: JsonView, session: Seq<char>)
    requires
        event(value, session, "session.tool.input.ended"@),
    ensures
        just(state, value, session, progress(value, match datum(value, "text"@) {
                Some(JsonView::Str(held)) => plain(tree::parsed_text(held)),
                _ => JsonView::Null,
            })),
{
    reveal(MapperState::on_own);
    let step = state.on_event(value, session);
    let data = observer::data_of(value);
    assert(value.text("type"@) == terms::words(value.get("type"@)));
    lemma_own(value, session);
    assert(step == state.telling(observer::update_told(data, observer::value_in_text(data.get("text"@))))) by {
        reveal_strlit("session.created");
        reveal_strlit("session.renamed");
        reveal_strlit("session.updated");
        reveal_strlit("session.execution.started");
        reveal_strlit("session.step.started");
        reveal_strlit("message.updated");
        reveal_strlit("session.text.delta");
        reveal_strlit("session.reasoning.delta");
        reveal_strlit("session.tool.input.started");
        reveal_strlit("session.tool.input.ended");
        reveal_strlit("session.tool.called");
        reveal_strlit("session.tool.progress");
        reveal_strlit("session.tool.success");
        reveal_strlit("session.tool.failed");
        reveal_strlit("session.step.ended");
        reveal_strlit("session.usage.updated");
        reveal_strlit("session.usage.recorded");
        reveal_strlit("session.execution.succeeded");
        reveal_strlit("session.idle");
        reveal_strlit("session.execution.interrupted");
        reveal_strlit("session.execution.failed");
        reveal_strlit("session.step.failed");
        reveal_strlit("session.error");
        reveal_strlit("permission.asked");
        reveal_strlit("permission.replied");
        reveal_strlit("permission.rejected");
        reveal_strlit("message.part.updated");
        reveal_strlit("session.status");
        assert("session.tool.input.ended"@[8] != "session.execution.failed"@[8]);
    }
}

/// A call of a tool tells its input.
pub proof fn law_tool_call_is_told(state: MapperState, value: JsonView, session: Seq<char>)
    requires
        event(value, session, "session.tool.called"@),
    ensures
        just(state, value, session, progress(value, plain(datum(value, "input"@)))),
{
    reveal(MapperState::on_own);
    let step = state.on_event(value, session);
    let data = observer::data_of(value);
    assert(value.text("type"@) == terms::words(value.get("type"@)));
    lemma_own(value, session);
    assert(step == state.telling(observer::update_told(data, tree::or_null(data.get("input"@))))) by {
        reveal_strlit("session.created");
        reveal_strlit("session.renamed");
        reveal_strlit("session.updated");
        reveal_strlit("session.execution.started");
        reveal_strlit("session.step.started");
        reveal_strlit("message.updated");
        reveal_strlit("session.text.delta");
        reveal_strlit("session.reasoning.delta");
        reveal_strlit("session.tool.input.started");
        reveal_strlit("session.tool.input.ended");
        reveal_strlit("session.tool.called");
        reveal_strlit("session.tool.progress");
        reveal_strlit("session.tool.success");
        reveal_strlit("session.tool.failed");
        reveal_strlit("session.step.ended");
        reveal_strlit("session.usage.updated");
        reveal_strlit("session.usage.recorded");
        reveal_strlit("session.execution.succeeded");
        reveal_strlit("session.idle");
        reveal_strlit("session.execution.interrupted");
        reveal_strlit("session.execution.failed");
        reveal_strlit("session.step.failed");
        reveal_strlit("session.error");
        reveal_strlit("permission.asked");
        reveal_strlit("permission.replied");
        reveal_strlit("permission.rejected");
        reveal_strlit("message.part.updated");
        reveal_strlit("session.status");
        assert("session.tool.called"@[13] != "session.tool.failed"@[13]);
        assert("session.tool.called"@[8] != "session.step.failed"@[8]);
        assert("session.tool.called"@[0] != "permission.rejected"@[0]);
    }
}

/// The progress of a tool tells its metadata.
pub proof fn law_tool_progress_is_told(state: MapperState, value: JsonView, session: Seq<char>)
    requires
        event(value, session, "session.tool.progress"@),
    ensures
        just(state, value, session, progress(value, plain(datum(value, "metadata"@)))),
{
    reveal(MapperState::on_own);
    let step = state.on_event(value, session);
    let data = observer::data_of(value);
    assert(value.text("type"@) == terms::words(value.get("type"@)));
    lemma_own(value, session);
    assert(step == state.telling(observer::update_told(data, tree::or_null(data.get("metadata"@))))) by {
        reveal_strlit("session.created");
        reveal_strlit("session.renamed");
        reveal_strlit("session.updated");
        reveal_strlit("session.execution.started");
        reveal_strlit("session.step.started");
        reveal_strlit("message.updated");
        reveal_strlit("session.text.delta");
        reveal_strlit("session.reasoning.delta");
        reveal_strlit("session.tool.input.started");
        reveal_strlit("session.tool.input.ended");
        reveal_strlit("session.tool.called");
        reveal_strlit("session.tool.progress");
        reveal_strlit("session.tool.success");
        reveal_strlit("session.tool.failed");
        reveal_strlit("session.step.ended");
        reveal_strlit("session.usage.updated");
        reveal_strlit("session.usage.recorded");
        reveal_strlit("session.execution.succeeded");
        reveal_strlit("session.idle");
        reveal_strlit("session.execution.interrupted");
        reveal_strlit("session.execution.failed");
        reveal_strlit("session.step.failed");
        reveal_strlit("session.error");
        reveal_strlit("permission.asked");
        reveal_strlit("permission.replied");
        reveal_strlit("permission.rejected");
        reveal_strlit("message.part.updated");
        reveal_strlit("session.status");
        assert("session.tool.progress"@[8] != "session.usage.updated"@[8]);
    }
}

/// A tool call ends under the name it started with, well exactly where it succeeded,
/// with its content, else its error, else its output.
pub proof fn law_tool_ends_as_it_went(state: MapperState, value: JsonView, session: Seq<char>)
    requires
        event(value, session, "session.tool.success"@) || event(value, session, "session.tool.failed"@),
    ensures
        just(
            state,
            value,
            session,
            match datum(value, "id"@) {
                Some(JsonView::Str(id)) => seq![
                    EventView::ToolFinished {
                        id,
                        name: if state.names.contains_key(id) {
                            state.names[id]
                        } else {
                            terms::words(datum(value, "name"@))
                        },
                        ok: terms::words(value.get("type"@)) == "session.tool.success"@,
                        output: first3(
                            datum(value, "content"@),
                            datum(value, "error"@),
                            datum(value, "output"@),
                        ),
                    },
                ],
                _ => Seq::empty(),
            },
        ),
{
    reveal(MapperState::on_own);
    let step = state.on_event(value, session);
    let data = observer::data_of(value);
    assert(value.text("type"@) == terms::words(value.get("type"@)));
    lemma_own(value, session);
    assert(step == state.telling(state.end_told(data, terms::words(value.get("type"@)) == "session.tool.success"@))) by {
        reveal_strlit("session.created");
        reveal_strlit("session.renamed");
        reveal_strlit("session.updated");
        reveal_strlit("session.execution.started");
        reveal_strlit("session.step.started");
        reveal_strlit("message.updated");
        reveal_strlit("session.text.delta");
        reveal_strlit("session.reasoning.delta");
        reveal_strlit("session.tool.input.started");
        reveal_strlit("session.tool.input.ended");
        reveal_strlit("session.tool.called");
        reveal_strlit("session.tool.progress");
        reveal_strlit("session.tool.success");
        reveal_strlit("session.tool.failed");
        reveal_strlit("session.step.ended");
        reveal_strlit("session.usage.updated");
        reveal_strlit("session.usage.recorded");
        reveal_strlit("session.execution.succeeded");
        reveal_strlit("session.idle");
        reveal_strlit("session.execution.interrupted");
        reveal_strlit("session.execution.failed");
        reveal_strlit("session.step.failed");
        reveal_strlit("session.error");
        reveal_strlit("permission.asked");
        reveal_strlit("permission.replied");
        reveal_strlit("permission.rejected");
        reveal_strlit("message.part.updated");
        reveal_strlit("session.status");
        assert("session.tool.success"@[8] != "session.step.started"@[8]);
        assert("session.tool.success"@[0] != "message.part.updated"@[0]);
        assert("session.tool.failed"@[13] != "session.tool.called"@[13]);
        assert("session.tool.failed"@[8] != "session.step.failed"@[8]);
        assert("session.tool.failed"@[0] != "permission.rejected"@[0]);
    }
}

/// Reported usage is told, every counter from its own field, unless there is none.
pub proof fn law_usage_is_told(state: MapperState, value: JsonView, session: Seq<char>)
    requires
        event(value, session, "session.step.ended"@) || event(value, session, "session.usage.updated"@) || event(value, session, "session.usage.recorded"@),
    ensures
        just(state, value, session, accounted(body(value))),
{
    reveal(MapperState::on_own);
    let step = state.on_event(value, session);
    let data = observer::data_of(value);
    assert(value.text("type"@) == terms::words(value.get("type"@)));
    lemma_own(value, session);
    assert(step == state.telling(observer::usage_told(data))) by {
        reveal_strlit("session.created");
        reveal_strlit("session.renamed");
        reveal_strlit("session.updated");
        reveal_strlit("session.execution.started");
        reveal_strlit("session.step.started");
        reveal_strlit("message.updated");
        reveal_strlit("session.text.delta");
        reveal_strlit("session.reasoning.delta");
        reveal_strlit("session.tool.input.started");
        reveal_strlit("session.tool.input.ended");
        reveal_strlit("session.tool.called");
        reveal_strlit("session.tool.progress");
        reveal_strlit("session.tool.success");
        reveal_strlit("session.tool.failed");
        reveal_strlit("session.step.ended");
        reveal_strlit("session.usage.updated");
        reveal_strlit("session.usage.recorded");
        reveal_strlit("session.execution.succeeded");
        reveal_strlit("session.idle");
        reveal_strlit("session.execution.interrupted");
        reveal_strlit("session.execution.failed");
        reveal_strlit("session.step.failed");
        reveal_strlit("session.error");
        reveal_strlit("permission.asked");
        reveal_strlit("permission.replied");
        reveal_strlit("permission.rejected");
        reveal_strlit("message.part.updated");
        reveal_strlit("session.status");
        assert("session.step.ended"@[8] != "session.text.delta"@[8]);
        assert("session.step.ended"@[0] != "permission.replied"@[0]);
        assert("session.usage.updated"@[8] != "session.tool.progress"@[8]);
    }
    lemma_usage(data);
}

/// A permission request is told with its answers while it does not wait already; one
/// without an id is nothing.
pub proof fn law_permission_is_asked_once(state: MapperState, value: JsonView, session: Seq<char>)
    requires
        event(value, session, "permission.asked"@),
    ensures
        match datum(value, "id"@) {
            Some(JsonView::Str(id)) if !state.outstanding.contains(id) => state.on_event(value, session)
                == (MapStep {
                state: MapperState { outstanding: state.outstanding.insert(id), ..state },
                told: seq![
                    EventView::InputRequested {
                        request: InputRequestView {
                            id,
                            kind: AwaitingInputKind::Permission,
                            message: text::trimmed(
                                "Allow "@ + terms::words(datum(value, "action"@)) + " "@
                                    + text::linked(
                                    tree::texts_in(datum(value, "resources"@)),
                                    ", "@,
                                ),
                            ),
                            options: seq!["Allow once"@, "Allow always"@, "Reject"@],
                            allow_always: datum(value, "save"@) matches Some(
                                JsonView::Array(saved),
                            ) && saved.len() > 0,
                        },
                    },
                ],
            }),
            _ => just(state, value, session, Seq::empty()),
        },
{
    reveal(MapperState::on_own);
    let step = state.on_event(value, session);
    let data = observer::data_of(value);
    assert(value.text("type"@) == terms::words(value.get("type"@)));
    lemma_own(value, session);
    assert(step == state.on_permission(data)) by {
        reveal_strlit("session.created");
        reveal_strlit("session.renamed");
        reveal_strlit("session.updated");
        reveal_strlit("session.execution.started");
        reveal_strlit("session.step.started");
        reveal_strlit("message.updated");
        reveal_strlit("session.text.delta");
        reveal_strlit("session.reasoning.delta");
        reveal_strlit("session.tool.input.started");
        reveal_strlit("session.tool.input.ended");
        reveal_strlit("session.tool.called");
        reveal_strlit("session.tool.progress");
        reveal_strlit("session.tool.success");
        reveal_strlit("session.tool.failed");
        reveal_strlit("session.step.ended");
        reveal_strlit("session.usage.updated");
        reveal_strlit("session.usage.recorded");
        reveal_strlit("session.execution.succeeded");
        reveal_strlit("session.idle");
        reveal_strlit("session.execution.interrupted");
        reveal_strlit("session.execution.failed");
        reveal_strlit("session.step.failed");
        reveal_strlit("session.error");
        reveal_strlit("permission.asked");
        reveal_strlit("permission.replied");
        reveal_strlit("permission.rejected");
        reveal_strlit("message.part.updated");
        reveal_strlit("session.status");
    }
}

/// An answer resolves its request, which then waits no more, whether it was granted or
/// rejected.
pub proof fn law_answer_resolves_its_request(state: MapperState, value: JsonView, session: Seq<char>)
    requires
        event(value, session, "permission.replied"@) || event(value, session, "permission.rejected"@),
    ensures
        match first3(datum(value, "requestID"@), datum(value, "id"@), None) {
            Some(JsonView::Str(id)) => state.on_event(value, session) == (MapStep {
                state: MapperState { outstanding: state.outstanding.remove(id), ..state },
                told: seq![EventView::InputResolved { id }],
            }),
            _ => just(state, value, session, Seq::empty()),
        },
{
    reveal(MapperState::on_own);
    let step = state.on_event(value, session);
    let data = observer::data_of(value);
    assert(value.text("type"@) == terms::words(value.get("type"@)));
    lemma_own(value, session);
    assert(step == state.on_resolved(data)) by {
        reveal_strlit("session.created");
        reveal_strlit("session.renamed");
        reveal_strlit("session.updated");
        reveal_strlit("session.execution.started");
        reveal_strlit("session.step.started");
        reveal_strlit("message.updated");
        reveal_strlit("session.text.delta");
        reveal_strlit("session.reasoning.delta");
        reveal_strlit("session.tool.input.started");
        reveal_strlit("session.tool.input.ended");
        reveal_strlit("session.tool.called");
        reveal_strlit("session.tool.progress");
        reveal_strlit("session.tool.success");
        reveal_strlit("session.tool.failed");
        reveal_strlit("session.step.ended");
        reveal_strlit("session.usage.updated");
        reveal_strlit("session.usage.recorded");
        reveal_strlit("session.execution.succeeded");
        reveal_strlit("session.idle");
        reveal_strlit("session.execution.interrupted");
        reveal_strlit("session.execution.failed");
        reveal_strlit("session.step.failed");
        reveal_strlit("session.error");
        reveal_strlit("permission.asked");
        reveal_strlit("permission.replied");
        reveal_strlit("permission.rejected");
        reveal_strlit("message.part.updated");
        reveal_strlit("session.status");
        assert("permission.replied"@[0] != "session.text.delta"@[0]);
        assert("permission.replied"@[0] != "session.step.ended"@[0]);
        assert("permission.rejected"@[0] != "session.tool.called"@[0]);
        assert("permission.rejected"@[0] != "session.tool.failed"@[0]);
        assert("permission.rejected"@[0] != "session.step.failed"@[0]);
    }
}

/// The part that an event carries.
pub open spec fn part(value: JsonView) -> Option<JsonView> {
    first3(
        terms::inside(value, "properties"@, "part"@),
        terms::inside(value, "data"@, "part"@),
        value.get("part"@),
    )
}

/// An updated part is told as what it is: a piece of text or of reasoning, the start of
/// a step, the usage at its end, or a tool call; any other is nothing.
pub proof fn law_part_tells_what_it_is(state: MapperState, value: JsonView, session: Seq<char>)
    requires
        event(value, session, "message.part.updated"@),
    ensures
        match part(value) {
            None => just(state, value, session, Seq::empty()),
            Some(p) => {
                let kind = terms::words(p.get("type"@));
                &&& kind == "text"@ ==> just(state, value, session, spoken(piece(value)))
                &&& kind == "reasoning"@ ==> just(state, value, session, pondered(piece(value)))
                &&& kind == "step-start"@ ==> just(state, value, session, seq![EventView::TurnStarted])
                &&& kind == "step-finish"@ ==> just(
                    state,
                    value,
                    session,
                    accounted(
                        match terms::inside(value, "properties"@, "part"@) {
                            Some(q) => q,
                            None => value,
                        },
                    ),
                )
                &&& kind != "text"@ && kind != "reasoning"@ && kind != "step-start"@ && kind
                    != "step-finish"@ && kind != "tool"@ ==> just(state, value, session, Seq::empty())
            },
        },
{
    reveal(MapperState::on_own);
    let step = state.on_event(value, session);
    let data = observer::data_of(value);
    assert(value.text("type"@) == terms::words(value.get("type"@)));
    lemma_own(value, session);
    assert(step == state.on_legacy_part(value)) by {
        reveal_strlit("session.created");
        reveal_strlit("session.renamed");
        reveal_strlit("session.updated");
        reveal_strlit("session.execution.started");
        reveal_strlit("session.step.started");
        reveal_strlit("message.updated");
        reveal_strlit("session.text.delta");
        reveal_strlit("session.reasoning.delta");
        reveal_strlit("session.tool.input.started");
        reveal_strlit("session.tool.input.ended");
        reveal_strlit("session.tool.called");
        reveal_strlit("session.tool.progress");
        reveal_strlit("session.tool.success");
        reveal_strlit("session.tool.failed");
        reveal_strlit("session.step.ended");
        reveal_strlit("session.usage.updated");
        reveal_strlit("session.usage.recorded");
        reveal_strlit("session.execution.succeeded");
        reveal_strlit("session.idle");
        reveal_strlit("session.execution.interrupted");
        reveal_strlit("session.execution.failed");
        reveal_strlit("session.step.failed");
        reveal_strlit("session.error");
        reveal_strlit("permission.asked");
        reveal_strlit("permission.replied");
        reveal_strlit("permission.rejected");
        reveal_strlit("message.part.updated");
        reveal_strlit("session.status");
        assert("message.part.updated"@[0] != "session.step.started"@[0]);
        assert("message.part.updated"@[0] != "session.tool.success"@[0]);
    }
    reveal_strlit("text");
    reveal_strlit("reasoning");
    reveal_strlit("step-start");
    reveal_strlit("step-finish");
    reveal_strlit("tool");
    assert("text"@[1] != "tool"@[1]);
    assert(part(value) == observer::part_of(value));
    assert(observer::piece_in(value) == piece(value));
    lemma_usage(value);
    if let Some(q) = value.get2("properties"@, "part"@) {
        lemma_usage(q);
    }
    if let Some(p) = part(value) {
        assert(p.text("type"@) == terms::words(p.get("type"@)));
    }
}

/// A tool part that completed or failed is told as the end of its call, well exactly
/// where it completed; any other as its start. A name that it carries is remembered.
pub proof fn law_tool_part_is_told(state: MapperState, value: JsonView, session: Seq<char>, p: JsonView)
    requires
        event(value, session, "message.part.updated"@),
        part(value) == Some(p),
        terms::words(p.get("type"@)) == "tool"@,
    ensures
        ({
            let id = terms::words(first3(p.get("callID"@), p.get("id"@), None));
            let name = terms::words(first3(p.get("tool"@), p.get("name"@), None));
            let status = terms::inside(p, "state"@, "status"@);
            let step = state.on_event(value, session);
            &&& step.state == if name.len() > 0 {
                MapperState { names: state.names.insert(id, name), ..state }
            } else {
                state
            }
            &&& step.told =~= if status == Some(JsonView::Str("completed"@)) || status == Some(
                JsonView::Str("error"@),
            ) {
                seq![
                    EventView::ToolFinished {
                        id,
                        name,
                        ok: status == Some(JsonView::Str("completed"@)),
                        output: first3(
                            terms::inside(p, "state"@, "output"@),
                            terms::inside(p, "state"@, "error"@),
                            None,
                        ),
                    },
                ]
            } else {
                seq![
                    EventView::ToolStarted {
                        id,
                        name,
                        input: plain(terms::inside(p, "state"@, "input"@)),
                    },
                ]
            }
        }),
{
    reveal(MapperState::on_own);
    let step = state.on_event(value, session);
    let data = observer::data_of(value);
    assert(value.text("type"@) == terms::words(value.get("type"@)));
    lemma_own(value, session);
    assert(step == state.on_legacy_part(value)) by {
        reveal_strlit("session.created");
        reveal_strlit("session.renamed");
        reveal_strlit("session.updated");
        reveal_strlit("session.execution.started");
        reveal_strlit("session.step.started");
        reveal_strlit("message.updated");
        reveal_strlit("session.text.delta");
        reveal_strlit("session.reasoning.delta");
        reveal_strlit("session.tool.input.started");
        reveal_strlit("session.tool.input.ended");
        reveal_strlit("session.tool.called");
        reveal_strlit("session.tool.progress");
        reveal_strlit("session.tool.success");
        reveal_strlit("session.tool.failed");
        reveal_strlit("session.step.ended");
        reveal_strlit("session.usage.updated");
        reveal_strlit("session.usage.recorded");
        reveal_strlit("session.execution.succeeded");
        reveal_strlit("session.idle");
        reveal_strlit("session.execution.interrupted");
        reveal_strlit("session.execution.failed");
        reveal_strlit("session.step.failed");
        reveal_strlit("session.error");
        reveal_strlit("permission.asked");
        reveal_strlit("permission.replied");
        reveal_strlit("permission.rejected");
        reveal_strlit("message.part.updated");
        reveal_strlit("session.status");
        assert("message.part.updated"@[0] != "session.step.started"@[0]);
        assert("message.part.updated"@[0] != "session.tool.success"@[0]);
    }
    reveal_strlit("text");
    reveal_strlit("reasoning");
    reveal_strlit("step-start");
    reveal_strlit("step-finish");
    reveal_strlit("tool");
    assert("text"@[1] != "tool"@[1]);
    assert(part(value) == observer::part_of(value));
    assert(p.text("type"@) == terms::words(p.get("type"@)));
    assert(state.on_legacy_part(value) == state.on_legacy_tool(p));
    reveal_strlit("running");
    reveal_strlit("completed");
    reveal_strlit("error");
    let step = state.on_legacy_tool(p);
    let status = terms::inside(p, "state"@, "status"@);
    assert(p.get2("state"@, "status"@) == status);
    assert(p.get2("state"@, "input"@) == terms::inside(p, "state"@, "input"@));
    assert(p.get2("state"@, "output"@) == terms::inside(p, "state"@, "output"@));
    assert(p.get2("state"@, "error"@) == terms::inside(p, "state"@, "error"@));
    let id = terms::words(first3(p.get("callID"@), p.get("id"@), None));
    let name = terms::words(first3(p.get("tool"@), p.get("name"@), None));
    assert(tree::text_of(tree::first_of(p.get("callID"@), p.get("id"@))) == id);
    assert(tree::text_of(tree::first_of(p.get("tool"@), p.get("name"@))) == name);
    assert(step.state == if name.len() > 0 {
        MapperState { names: state.names.insert(id, name), ..state }
    } else {
        state
    });
    if let Some(JsonView::Str(said)) = status {
        if said == "completed"@ {
            assert(step.told[0]->ToolFinished_ok);
        } else if said == "error"@ {
            assert(!step.told[0]->ToolFinished_ok);
        } else {
            assert(step.told[0] is ToolStarted);
        }
    } else {
        assert(tree::str_of(status) is None);
        assert("running"@.len() == 7 && "completed"@.len() == 9 && "error"@.len() == 5);
        assert("running"@ != "completed"@ && "running"@ != "error"@);
        assert(step.told[0] is ToolStarted);
    }
}

/// Whether a type is none of those that tell something.
pub open spec fn other_kind(kind: Seq<char>) -> bool {
    &&& kind != "session.created"@
    &&& kind != "session.renamed"@
    &&& kind != "session.updated"@
    &&& kind != "session.execution.started"@
    &&& kind != "session.step.started"@
    &&& kind != "message.updated"@
    &&& kind != "session.text.delta"@
    &&& kind != "session.reasoning.delta"@
    &&& kind != "session.tool.input.started"@
    &&& kind != "session.tool.input.ended"@
    &&& kind != "session.tool.called"@
    &&& kind != "session.tool.progress"@
    &&& kind != "session.tool.success"@
    &&& kind != "session.tool.failed"@
    &&& kind != "session.step.ended"@
    &&& kind != "session.usage.updated"@
    &&& kind != "session.usage.recorded"@
    &&& kind != "session.execution.succeeded"@
    &&& kind != "session.idle"@
    &&& kind != "session.execution.interrupted"@
    &&& kind != "session.execution.failed"@
    &&& kind != "session.step.failed"@
    &&& kind != "session.error"@
    &&& kind != "permission.asked"@
    &&& kind != "permission.replied"@
    &&& kind != "permission.rejected"@
    &&& kind != "message.part.updated"@
    &&& kind != "session.status"@
}

/// An event of any other type changes nothing and tells nothing.
pub proof fn law_other_events_are_nothing(state: MapperState, value: JsonView, session: Seq<char>)
    requires
        other_kind(terms::words(value.get("type"@))),
    ensures
        just(state, value, session, Seq::empty()),
{
    reveal(MapperState::on_own);
    assert(value.text("type"@) == terms::words(value.get("type"@)));
}

/// A line of the stream carries the value behind `data:`, whatever white space stands
/// around both; any other line carries none.
pub proof fn law_line_carries_its_payload(line: Seq<char>)
    ensures
        ({
            let content = text::trimmed(line);
            observer::sse_data(line) == if content.len() >= 5 && content.take(5) =~= "data:"@ && text::trimmed(
                content.skip(5),
            ).len() > 0 {
                tree::parsed_text(text::trimmed(content.skip(5)))
            } else {
                None
            }
        }),
{
    reveal_strlit("data:");
    let content = text::trimmed(line);
    if content.len() >= 5 && content.take(5) =~= "data:"@ {
        assert(content.subrange(0, 5) =~= content.take(5));
        assert(text::stands_at(content, "data:"@, 0));
    }
    if text::stands_at(content, "data:"@, 0) {
        assert(content.take(5) =~= "data:"@);
    }
}

/// The record of a session tells its title where that is new, and then the outcome that
/// it names, if it names one.
pub proof fn law_record_tells_its_outcome(state: MapperState, reply: JsonView)
    ensures
        ({
            let title = text::trimmed(terms::words(datum(reply, "title"@)));
            let outcome = terms::words(datum(reply, "outcome"@));
            let fresh = title.len() > 0 && state.last_title != Some(title);
            let step = observer::record_in(state, reply);
            &&& step.state == if fresh {
                MapperState { last_title: Some(title), ..state }
            } else {
                state
            }
            &&& step.told =~= (if fresh {
                seq![EventView::Title { title }]
            } else {
                Seq::empty()
            }) + (if outcome == "succeeded"@ {
                seq![EventView::Idle { outcome: IdleOutcome::Succeeded }]
            } else if outcome == "failed"@ {
                seq![EventView::Idle { outcome: IdleOutcome::Failed }]
            } else if outcome == "interrupted"@ {
                seq![EventView::Idle { outcome: IdleOutcome::Interrupted }]
            } else {
                Seq::empty()
            })
        }),
{
    reveal_strlit("succeeded");
    reveal_strlit("failed");
    reveal_strlit("interrupted");
}

} // verus!
