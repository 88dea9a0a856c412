//! What each row of an unattended run of opencode tells.
use crate::agents::opencode::json;
use crate::agents::opencode::json::OpenCodeState;
use crate::agents::terms;
use crate::json as tree;
use crate::json::JsonView;
use crate::lines;
use crate::model::{
    AgentUsage, EventView, IdleOutcome, MessageRole, SummaryView, ToolCallView,
};
use crate::text;
use vstd::prelude::*;

verus! {

/// Whether a row is of this type.
pub open spec fn row(value: JsonView, kind: Seq<char>) -> bool {
    value is Object && terms::words(value.get("type"@)) == kind
}

/// The state `s` once the session that a row names is known; the first one is told.
pub open spec fn met(s: OpenCodeState, value: JsonView) -> OpenCodeState {
    match (s.summary.session_id, s.probe) {
        (None, Some(key)) => match value.get(key) {
            Some(JsonView::Str(id)) => OpenCodeState {
                summary: SummaryView { session_id: Some(id), ..s.summary },
                events: s.events.push(
                    EventView::Session { session_id: Some(id), title: None, model: None },
                ),
                ..s
            },
            _ => s,
        },
        _ => s,
    }
}

/// The state `s` once it has seen a row that it knows.
pub open spec fn seen(s: OpenCodeState) -> OpenCodeState {
    OpenCodeState { saw_structured: true, ..s }
}

/// The value that the part of a row carries under `key`.
pub open spec fn part(value: JsonView, key: Seq<char>) -> Option<JsonView> {
    terms::inside(value, "part"@, key)
}

/// The value that the state of a tool's part carries under `key`.
pub open spec fn stage(value: JsonView, key: Seq<char>) -> Option<JsonView> {
    match part(value, "state"@) {
        Some(v) => v.get(key),
        None => None,
    }
}

/// The value that the tokens of a part carry under `key`.
pub open spec fn tokens(value: JsonView, key: Seq<char>) -> Option<JsonView> {
    match part(value, "tokens"@) {
        Some(v) => v.get(key),
        None => None,
    }
}

/// The value that the cache's tokens of a part carry under `key`.
pub open spec fn cached(value: JsonView, key: Seq<char>) -> Option<JsonView> {
    match tokens(value, "cache"@) {
        Some(v) => v.get(key),
        None => None,
    }
}

/// The usage that a finished step reports.
pub open spec fn spent(value: JsonView) -> AgentUsage {
    AgentUsage {
        input_tokens: terms::tally(tokens(value, "input"@)),
        output_tokens: terms::tally(tokens(value, "output"@)),
        reasoning_tokens: terms::tally(tokens(value, "reasoning"@)),
        cache_read_tokens: terms::tally(cached(value, "read"@)),
        cache_write_tokens: terms::tally(cached(value, "write"@)),
        cost_usd: terms::dollars(part(value, "cost"@)),
    }
}

/// A step that starts is a turn.
pub proof fn law_step_is_a_turn(s: OpenCodeState, value: JsonView)
    requires
        row(value, "step_start"@),
    ensures
        ({
            let k = seen(met(s, value));
            s.on_record(value) == OpenCodeState { events: k.events.push(EventView::TurnStarted), ..k }
        }),
{
    reveal(OpenCodeState::on_record);
    let t = s.on_record(value);
    assert(value.text("type"@) == terms::words(value.get("type"@)));
    assert(s.announce(value) == met(s, value));
    let known = seen(met(s, value));
    assert(t == known.emit(EventView::TurnStarted)) by {
        reveal_strlit("step_start");
        reveal_strlit("text");
        reveal_strlit("reasoning");
        reveal_strlit("tool_use");
        reveal_strlit("step_finish");
        reveal_strlit("error");
    }
}

/// A piece of the answer is told and added to the summary, unless it is empty.
pub proof fn law_text_is_told(s: OpenCodeState, value: JsonView)
    requires
        row(value, "text"@),
    ensures
        ({
            let k = seen(met(s, value));
            let piece = terms::words(part(value, "text"@));
            s.on_record(value) == if piece.len() > 0 {
                OpenCodeState {
                    summary: SummaryView { text: s.summary.text + piece, ..k.summary },
                    events: k.events.push(EventView::TextDelta { role: MessageRole::Assistant, text: piece }),
                    ..k
                }
            } else {
                k
            }
        }),
{
    reveal(OpenCodeState::on_record);
    let t = s.on_record(value);
    assert(value.text("type"@) == terms::words(value.get("type"@)));
    assert(s.announce(value) == met(s, value));
    let known = seen(met(s, value));
    assert(t == met(s, value).on_row("text"@, value)) by {
        reveal_strlit("step_start");
        reveal_strlit("text");
        reveal_strlit("reasoning");
        reveal_strlit("tool_use");
        reveal_strlit("step_finish");
        reveal_strlit("error");
    }
    reveal_strlit("step_start");
    reveal_strlit("text");
    reveal_strlit("reasoning");
    reveal_strlit("tool_use");
    reveal_strlit("step_finish");
    reveal_strlit("error");
}

/// A piece of the reasoning is told and added to the summary, unless it is empty.
pub proof fn law_reasoning_is_told(s: OpenCodeState, value: JsonView)
    requires
        row(value, "reasoning"@),
    ensures
        ({
            let k = seen(met(s, value));
            let piece = terms::words(part(value, "text"@));
            s.on_record(value) == if piece.len() > 0 {
                OpenCodeState {
                    summary: SummaryView { reasoning: s.summary.reasoning + piece, ..k.summary },
                    events: k.events.push(EventView::ReasoningDelta { text: piece }),
                    ..k
                }
            } else {
                k
            }
        }),
{
    reveal(OpenCodeState::on_record);
    let t = s.on_record(value);
    assert(value.text("type"@) == terms::words(value.get("type"@)));
    assert(s.announce(value) == met(s, value));
    let known = seen(met(s, value));
    assert(t == met(s, value).on_row("reasoning"@, value)) by {
        reveal_strlit("step_start");
        reveal_strlit("text");
        reveal_strlit("reasoning");
        reveal_strlit("tool_use");
        reveal_strlit("step_finish");
        reveal_strlit("error");
    }
    reveal_strlit("step_start");
    reveal_strlit("text");
    reveal_strlit("reasoning");
    reveal_strlit("tool_use");
    reveal_strlit("step_finish");
    reveal_strlit("error");
}

/// A tool's row tells its start and its end, well exactly where it completed, and
/// enters the summary.
pub proof fn law_tool_is_told_once_complete(s: OpenCodeState, value: JsonView)
    requires
        row(value, "tool_use"@),
    ensures
        ({
            let k = seen(met(s, value));
            let id = terms::words(part(value, "callID"@));
            let name = terms::words(part(value, "tool"@));
            let input = match stage(value, "input"@) {
                Some(input) => input,
                None => JsonView::Null,
            };
            let ok = terms::words(stage(value, "status"@)) == "completed"@;
            let logged = match stage(value, "metadata"@) {
                Some(metadata) => metadata.get("output"@),
                None => None,
            };
            let output = if stage(value, "output"@) is Some {
                stage(value, "output"@)
            } else if logged is Some {
                logged
            } else {
                stage(value, "error"@)
            };
            s.on_record(value) == OpenCodeState {
                summary: SummaryView {
                    tool_calls: s.summary.tool_calls.push(ToolCallView { id, name, input, ok, output }),
                    ..k.summary
                },
                events: k.events.push(EventView::ToolStarted { id, name, input }).push(
                    EventView::ToolFinished { id, name, ok, output },
                ),
                ..k
            }
        }),
{
    reveal(OpenCodeState::on_record);
    let t = s.on_record(value);
    assert(value.text("type"@) == terms::words(value.get("type"@)));
    assert(s.announce(value) == met(s, value));
    let known = seen(met(s, value));
    assert(t == known.on_tool_use(value)) by {
        reveal_strlit("step_start");
        reveal_strlit("text");
        reveal_strlit("reasoning");
        reveal_strlit("tool_use");
        reveal_strlit("step_finish");
        reveal_strlit("error");
    }
}

/// A step that ends counts its usage and tells it; one that ends with a stop completes
/// the run.
pub proof fn law_step_end_is_accounted(s: OpenCodeState, value: JsonView)
    requires
        row(value, "step_finish"@),
    ensures
        ({
            let k = seen(met(s, value));
            s.on_record(value) == OpenCodeState {
                saw_final_step: s.saw_final_step || part(value, "reason"@) == Some(JsonView::Str("stop"@)),
                summary: SummaryView { usage: s.summary.usage.merged(spent(value)), ..k.summary },
                events: k.events.push(EventView::Usage { usage: spent(value) }),
                ..k
            }
        }),
{
    reveal(OpenCodeState::on_record);
    let t = s.on_record(value);
    assert(value.text("type"@) == terms::words(value.get("type"@)));
    assert(s.announce(value) == met(s, value));
    let known = seen(met(s, value));
    assert(t == known.on_step_finish(value)) by {
        reveal_strlit("step_start");
        reveal_strlit("text");
        reveal_strlit("reasoning");
        reveal_strlit("tool_use");
        reveal_strlit("step_finish");
        reveal_strlit("error");
    }
    assert(json::step_usage(value.get("part"@)) == spent(value));
    if let Some(JsonView::Str(reason)) = part(value, "reason"@) {
        assert(tree::str_of(part(value, "reason"@)) == Some(reason));
    }
}

/// An error is told with its message, else its name, kept in the summary, and makes the
/// run fail.
pub proof fn law_error_is_told_and_kept(s: OpenCodeState, value: JsonView)
    requires
        row(value, "error"@),
    ensures
        ({
            let k = seen(met(s, value));
            let message = terms::either(
                terms::words(
                    match terms::inside(value, "error"@, "data"@) {
                        Some(data) => data.get("message"@),
                        None => None,
                    },
                ),
                terms::either(terms::words(terms::inside(value, "error"@, "name"@)), "agent error"@),
            );
            s.on_record(value) == OpenCodeState {
                saw_error: true,
                summary: SummaryView { error: Some(message), ..k.summary },
                events: k.events.push(EventView::Error { message }),
                ..k
            }
        }),
{
    reveal(OpenCodeState::on_record);
    let t = s.on_record(value);
    assert(value.text("type"@) == terms::words(value.get("type"@)));
    assert(s.announce(value) == met(s, value));
    let known = seen(met(s, value));
    assert(t == known.on_error(value)) by {
        reveal_strlit("step_start");
        reveal_strlit("text");
        reveal_strlit("reasoning");
        reveal_strlit("tool_use");
        reveal_strlit("step_finish");
        reveal_strlit("error");
    }
}

/// A row of any other type may name the session, and else changes nothing.
pub proof fn law_other_rows_only_name_the_session(s: OpenCodeState, value: JsonView)
    requires
        value is Object,
        terms::words(value.get("type"@)) != "step_start"@,
        terms::words(value.get("type"@)) != "text"@,
        terms::words(value.get("type"@)) != "reasoning"@,
        terms::words(value.get("type"@)) != "tool_use"@,
        terms::words(value.get("type"@)) != "step_finish"@,
        terms::words(value.get("type"@)) != "error"@,
    ensures
        s.on_record(value) == met(s, value),
{
    reveal(OpenCodeState::on_record);
    assert(value.text("type"@) == terms::words(value.get("type"@)));
    assert(s.announce(value) == met(s, value));
}

/// The end of a run with rows tells its outcome and puts it in the summary: a failure
/// after an error or a bad exit, a success after a step that stopped, and else an
/// interruption. Output without rows has no outcome.
pub proof fn law_end_tells_the_outcome(s: OpenCodeState, rest: Seq<u8>, exit_code: Option<i32>)
    requires
        !s.finished,
        lines::last_line(rest).len() == 0,
    ensures
        ({
            let outcome = if s.saw_error || terms::failed_exit(exit_code) {
                IdleOutcome::Failed
            } else if s.saw_final_step {
                IdleOutcome::Succeeded
            } else {
                IdleOutcome::Interrupted
            };
            s.ended(rest, exit_code) == if s.saw_structured {
                OpenCodeState {
                    finished: true,
                    summary: SummaryView { outcome: Some(outcome), ..s.summary },
                    events: s.events.push(EventView::Idle { outcome }),
                    ..s
                }
            } else {
                OpenCodeState { finished: true, ..s }
            }
        }),
{
}

/// A last line without its end is read as any other before the run ends.
pub proof fn law_last_line_is_read(s: OpenCodeState, rest: Seq<u8>, none: Seq<u8>, exit_code: Option<i32>)
    requires
        !s.finished,
        lines::last_line(none).len() == 0,
    ensures
        s.ended(rest, exit_code) == (OpenCodeState {
            finished: false,
            ..OpenCodeState { finished: true, ..s }.on_line(lines::last_line(rest))
        }).ended(none, exit_code),
{
    reveal(OpenCodeState::on_record);
}

/// A line is the row that it holds, whatever white space stands around it; one that
/// holds none changes nothing.
pub proof fn law_line_is_its_row(s: OpenCodeState, line: Seq<char>)
    ensures
        s.on_line(line) == match tree::parsed_text(text::trimmed(line)) {
            Some(value) if text::trimmed(line).len() > 0 => s.on_record(value),
            _ => s,
        },
{
}

/// Once an error was told, no row makes the run succeed.
pub proof fn law_error_is_never_forgiven(s: OpenCodeState, value: JsonView)
    requires
        s.saw_error,
    ensures
        s.on_record(value).saw_error,
        s.saw_final_step ==> s.on_record(value).saw_final_step,
{
    reveal(OpenCodeState::on_record);
}

} // verus!
