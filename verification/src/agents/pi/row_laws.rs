//! What each record of a pi stream tells.
use crate::agents::pi::json;
use crate::agents::pi::json::PiState;
use crate::agents::terms;
use crate::json as tree;
use crate::json::JsonView;
use crate::model;
use crate::model::{
    AgentUsage, AwaitingInputKind, EventView, IdleOutcome, InputRequestView, MessageRole,
    SummaryView, ToolCallView,
};
use crate::text;
use vstd::prelude::*;

verus! {

/// Whether a record is of this type.
pub open spec fn record(value: JsonView, kind: Seq<char>) -> bool {
    value is Object && terms::words(value.get("type"@)) == kind
}

/// Whether a type is none of those that tell something.
pub open spec fn other_kind(kind: Seq<char>) -> bool {
    &&& kind != "session"@
    &&& kind != "response"@
    &&& kind != "agent_start"@
    &&& kind != "message_update"@
    &&& kind != "message_end"@
    &&& kind != "tool_execution_start"@
    &&& kind != "tool_execution_update"@
    &&& kind != "tool_execution_end"@
    &&& kind != "extension_ui_request"@
    &&& kind != "session_info_changed"@
    &&& kind != "turn_end"@
    &&& kind != "compaction_end"@
    &&& kind != "agent_settled"@
    &&& kind != "extension_error"@
}

/// The state `s` once it has told `event`.
pub open spec fn told(s: PiState, event: EventView) -> PiState {
    PiState { events: s.events.push(event), saw_structured: true, ..s }
}

/// The state `s` once it has counted `usage` and told it.
pub open spec fn counted(s: PiState, usage: AgentUsage) -> PiState {
    PiState {
        events: s.events.push(EventView::Usage { usage }),
        saw_structured: true,
        summary: SummaryView { usage: s.summary.usage.merged(usage), ..s.summary },
        emitted_usage: s.emitted_usage.merged(usage),
        ..s
    }
}

/// The state `s` once it has told an error and put it in the summary.
pub open spec fn erred(s: PiState, message: Seq<char>) -> PiState {
    PiState {
        events: s.events.push(EventView::Error { message }),
        saw_structured: true,
        saw_error: true,
        summary: SummaryView { error: Some(message), ..s.summary },
        ..s
    }
}

/// The usage that an object reports: its counters under `tokens`, or else at its top; its
/// cost under `cost.total`, or else under `cost`.
pub open spec fn spent(value: JsonView) -> AgentUsage {
    let counters = match value.get("tokens"@) {
        Some(tokens) => tokens,
        None => value,
    };
    AgentUsage {
        input_tokens: terms::tally(counters.get("input"@)),
        output_tokens: terms::tally(counters.get("output"@)),
        reasoning_tokens: terms::tally(counters.get("reasoning"@)),
        cache_read_tokens: terms::tally(counters.get("cacheRead"@)),
        cache_write_tokens: terms::tally(counters.get("cacheWrite"@)),
        cost_usd: match terms::dollars(terms::inside(value, "cost"@, "total"@)) {
            Some(cost) => Some(cost),
            None => terms::dollars(value.get("cost"@)),
        },
    }
}

/// The usage of the message that a record carries.
pub open spec fn message_spent(value: JsonView) -> Option<AgentUsage> {
    match terms::inside(value, "message"@, "usage"@) {
        Some(usage) if usage is Object => Some(spent(usage)),
        _ => None,
    }
}

/// The state `s` once it has asked for the totals, which it does as long as it holds pi's
/// input.
pub open spec fn asking(s: PiState) -> PiState {
    if s.asks_stats && s.holds_stdin {
        PiState {
            outgoing: s.outgoing + vstd::utf8::encode_utf8("{\"type\":\"get_session_stats\"}\n"@),
            ..s
        }
    } else {
        s
    }
}

/// Every counter and the cost of a usage object is read from its own field.
pub proof fn law_usage_is_read(value: JsonView)
    ensures
        json::usage_in(value) == spent(value),
{
}

/// A header tells its session; the summary keeps the first id.
pub proof fn law_header_tells_its_session(s: PiState, value: JsonView)
    requires
        record(value, "session"@),
    ensures
        match value.get("id"@) {
            Some(JsonView::Str(id)) => s.on_record(value) == PiState {
                summary: SummaryView {
                    session_id: match s.summary.session_id {
                        Some(known) => Some(known),
                        None => Some(id),
                    },
                    ..s.summary
                },
                ..told(
                    s,
                    EventView::Session { session_id: Some(id), title: s.summary.title, model: None },
                )
            },
            _ => s.on_record(value) == s,
        },
{
    reveal(PiState::on_record);
    let t = s.on_record(value);
    let kind = value.text("type"@);
    assert(kind == terms::words(value.get("type"@)));
    assert(t == s.on_header(value)) by {
        reveal_strlit("session");
        reveal_strlit("response");
        reveal_strlit("agent_start");
        reveal_strlit("message_update");
        reveal_strlit("message_end");
        reveal_strlit("tool_execution_start");
        reveal_strlit("tool_execution_update");
        reveal_strlit("tool_execution_end");
        reveal_strlit("extension_ui_request");
        reveal_strlit("session_info_changed");
        reveal_strlit("turn_end");
        reveal_strlit("compaction_end");
        reveal_strlit("agent_settled");
        reveal_strlit("extension_error");
        assert("response"@[0] != "turn_end"@[0]);
        assert("agent_start"@[0] != "message_end"@[0]);
        assert("message_update"@[0] != "compaction_end"@[0]);
        assert("tool_execution_start"@[0] != "extension_ui_request"@[0]);
        assert("tool_execution_start"@[0] != "session_info_changed"@[0]);
        assert("extension_ui_request"@[0] != "session_info_changed"@[0]);
    }
}

/// A reply to the question for the state tells the session, its name and its model. The
/// summary keeps the first id and the latest name.
pub proof fn law_identity_is_told(s: PiState, value: JsonView)
    requires
        record(value, "response"@),
        terms::affirmed(value.get("success"@)),
        terms::words(value.get("command"@)) == "get_state"@,
    ensures
        match value.get("data"@) {
            Some(data) => {
                let id = match data.get("sessionId"@) {
                    Some(JsonView::Str(id)) => Some(id),
                    _ => None,
                };
                let title = terms::given(terms::words(data.get("sessionName"@)));
                let model = match terms::inside(data, "model"@, "id"@) {
                    Some(JsonView::Str(model)) => Some(model),
                    _ => None,
                };
                s.on_record(value) == PiState {
                    summary: SummaryView {
                        session_id: match s.summary.session_id {
                            Some(known) => Some(known),
                            None => id,
                        },
                        title: match title {
                            Some(title) => Some(title),
                            None => s.summary.title,
                        },
                        ..s.summary
                    },
                    ..told(s, EventView::Session { session_id: id, title, model })
                }
            },
            None => s.on_record(value) == s,
        },
{
    reveal(PiState::on_record);
    let t = s.on_record(value);
    let kind = value.text("type"@);
    assert(kind == terms::words(value.get("type"@)));
    assert(t == s.on_response(value)) by {
        reveal_strlit("session");
        reveal_strlit("response");
        reveal_strlit("agent_start");
        reveal_strlit("message_update");
        reveal_strlit("message_end");
        reveal_strlit("tool_execution_start");
        reveal_strlit("tool_execution_update");
        reveal_strlit("tool_execution_end");
        reveal_strlit("extension_ui_request");
        reveal_strlit("session_info_changed");
        reveal_strlit("turn_end");
        reveal_strlit("compaction_end");
        reveal_strlit("agent_settled");
        reveal_strlit("extension_error");
        assert("response"@[0] != "turn_end"@[0]);
        assert("agent_start"@[0] != "message_end"@[0]);
        assert("message_update"@[0] != "compaction_end"@[0]);
        assert("tool_execution_start"@[0] != "extension_ui_request"@[0]);
        assert("tool_execution_start"@[0] != "session_info_changed"@[0]);
        assert("extension_ui_request"@[0] != "session_info_changed"@[0]);
    }
    assert(s.on_response(value) == s.on_identity(value)) by {
        reveal_strlit("get_state");
        reveal_strlit("get_session_stats");
    }
}

/// A reply with the session's totals waits for the verdict on its cost where no counter
/// lags behind what was told; the reasoning, which totals leave out, never does. A
/// stale or an empty reply changes nothing.
pub proof fn law_totals_wait_for_a_verdict(s: PiState, value: JsonView)
    requires
        record(value, "response"@),
        terms::affirmed(value.get("success"@)),
        terms::words(value.get("command"@)) == "get_session_stats"@,
    ensures
        match value.get("data"@) {
            Some(data) => {
                let reported = spent(data);
                let seen = s.emitted_usage;
                let total = AgentUsage {
                    reasoning_tokens: if reported.reasoning_tokens < seen.reasoning_tokens {
                        seen.reasoning_tokens
                    } else {
                        reported.reasoning_tokens
                    },
                    ..reported
                };
                let fresh = reported.input_tokens >= seen.input_tokens && reported.output_tokens
                    >= seen.output_tokens && reported.cache_read_tokens >= seen.cache_read_tokens
                    && reported.cache_write_tokens >= seen.cache_write_tokens;
                s.on_record(value) == if fresh && reported != model::no_usage() {
                    PiState { question: Some(total), ..s }
                } else {
                    s
                }
            },
            None => s.on_record(value) == s,
        },
{
    reveal(PiState::on_record);
    let t = s.on_record(value);
    let kind = value.text("type"@);
    assert(kind == terms::words(value.get("type"@)));
    assert(t == s.on_response(value)) by {
        reveal_strlit("session");
        reveal_strlit("response");
        reveal_strlit("agent_start");
        reveal_strlit("message_update");
        reveal_strlit("message_end");
        reveal_strlit("tool_execution_start");
        reveal_strlit("tool_execution_update");
        reveal_strlit("tool_execution_end");
        reveal_strlit("extension_ui_request");
        reveal_strlit("session_info_changed");
        reveal_strlit("turn_end");
        reveal_strlit("compaction_end");
        reveal_strlit("agent_settled");
        reveal_strlit("extension_error");
        assert("response"@[0] != "turn_end"@[0]);
        assert("agent_start"@[0] != "message_end"@[0]);
        assert("message_update"@[0] != "compaction_end"@[0]);
        assert("tool_execution_start"@[0] != "extension_ui_request"@[0]);
        assert("tool_execution_start"@[0] != "session_info_changed"@[0]);
        assert("extension_ui_request"@[0] != "session_info_changed"@[0]);
    }
    assert(tree::str_of(value.get("command"@)) == Some("get_session_stats"@)) by {
        reveal_strlit("get_session_stats");
    }
    assert("get_session_stats"@.len() != "get_state"@.len()) by {
        reveal_strlit("get_state");
        reveal_strlit("get_session_stats");
    }
    assert(s.on_response(value) == s.on_stats(value.get("data"@))) by {
        reveal_strlit("get_state");
        reveal_strlit("get_session_stats");
    }

    if let Some(data) = value.get("data"@) {
        law_usage_is_read(data);
    }
}

/// A reply that reports no success, or to another command, changes nothing.
pub proof fn law_other_replies_are_ignored(s: PiState, value: JsonView)
    requires
        record(value, "response"@),
        !terms::affirmed(value.get("success"@)) || (terms::words(value.get("command"@)) != "get_state"@ && terms::words(value.get("command"@)) != "get_session_stats"@),
    ensures
        s.on_record(value) == s,
{
    reveal(PiState::on_record);
    let t = s.on_record(value);
    let kind = value.text("type"@);
    assert(kind == terms::words(value.get("type"@)));
    assert(t == s.on_response(value)) by {
        reveal_strlit("session");
        reveal_strlit("response");
        reveal_strlit("agent_start");
        reveal_strlit("message_update");
        reveal_strlit("message_end");
        reveal_strlit("tool_execution_start");
        reveal_strlit("tool_execution_update");
        reveal_strlit("tool_execution_end");
        reveal_strlit("extension_ui_request");
        reveal_strlit("session_info_changed");
        reveal_strlit("turn_end");
        reveal_strlit("compaction_end");
        reveal_strlit("agent_settled");
        reveal_strlit("extension_error");
        assert("response"@[0] != "turn_end"@[0]);
        assert("agent_start"@[0] != "message_end"@[0]);
        assert("message_update"@[0] != "compaction_end"@[0]);
        assert("tool_execution_start"@[0] != "extension_ui_request"@[0]);
        assert("tool_execution_start"@[0] != "session_info_changed"@[0]);
        assert("extension_ui_request"@[0] != "session_info_changed"@[0]);
    }
}

/// Totals whose cost is not behind become the usage of the run, and what is new in them
/// is told. Totals whose cost is behind change nothing.
pub proof fn law_accepted_totals_are_met(s: PiState, total: AgentUsage, covers: bool)
    requires
        s.question == Some(total),
        s.emitted_usage.input_tokens <= total.input_tokens && s.emitted_usage.output_tokens <= total.output_tokens && s.emitted_usage.reasoning_tokens <= total.reasoning_tokens && s.emitted_usage.cache_read_tokens <= total.cache_read_tokens && s.emitted_usage.cache_write_tokens <= total.cache_write_tokens,
    ensures
        ({
            let t = s.judged(covers);
            let seen = s.emitted_usage;
            &&& t.question is None
            &&& covers ==> t.summary.usage == total && t.emitted_usage == total
            &&& !covers ==> t == (PiState { question: None, ..s })
            &&& covers ==> {
                ||| t.events == s.events && total.cost_usd is None && total.input_tokens
                    == seen.input_tokens && total.output_tokens == seen.output_tokens
                    && total.reasoning_tokens == seen.reasoning_tokens && total.cache_read_tokens
                    == seen.cache_read_tokens && total.cache_write_tokens == seen.cache_write_tokens
                ||| t.events.len() == s.events.len() + 1 && t.events.drop_last() == s.events && (
                t.events.last() matches EventView::Usage { usage } && {
                    &&& seen.input_tokens + usage.input_tokens == total.input_tokens
                    &&& seen.output_tokens + usage.output_tokens == total.output_tokens
                    &&& seen.reasoning_tokens + usage.reasoning_tokens == total.reasoning_tokens
                    &&& seen.cache_read_tokens + usage.cache_read_tokens == total.cache_read_tokens
                    &&& seen.cache_write_tokens + usage.cache_write_tokens
                        == total.cache_write_tokens
                    &&& match total.cost_usd {
                        None => usage.cost_usd is None,
                        Some(cost) => usage.cost_usd == Some(
                            model::Cost::Excess(
                                Box::new(cost),
                                match seen.cost_usd {
                                    Some(c) => Some(Box::new(c)),
                                    None => None,
                                },
                            ),
                        ),
                    }
                })
            }
        }),
{
    let t = s.judged(covers);
    if covers {
        if t.events.len() > s.events.len() {
            assert(t.events.drop_last() =~= s.events);
        }
    }
}

/// The start of the agent begins a turn.
pub proof fn law_start_begins_a_turn(s: PiState, value: JsonView)
    requires
        record(value, "agent_start"@),
    ensures
        s.on_record(value) == told(s, EventView::TurnStarted),
{
    reveal(PiState::on_record);
    let t = s.on_record(value);
    let kind = value.text("type"@);
    assert(kind == terms::words(value.get("type"@)));
    assert(t == s.emit(EventView::TurnStarted)) by {
        reveal_strlit("session");
        reveal_strlit("response");
        reveal_strlit("agent_start");
        reveal_strlit("message_update");
        reveal_strlit("message_end");
        reveal_strlit("tool_execution_start");
        reveal_strlit("tool_execution_update");
        reveal_strlit("tool_execution_end");
        reveal_strlit("extension_ui_request");
        reveal_strlit("session_info_changed");
        reveal_strlit("turn_end");
        reveal_strlit("compaction_end");
        reveal_strlit("agent_settled");
        reveal_strlit("extension_error");
        assert("response"@[0] != "turn_end"@[0]);
        assert("agent_start"@[0] != "message_end"@[0]);
        assert("message_update"@[0] != "compaction_end"@[0]);
        assert("tool_execution_start"@[0] != "extension_ui_request"@[0]);
        assert("tool_execution_start"@[0] != "session_info_changed"@[0]);
        assert("extension_ui_request"@[0] != "session_info_changed"@[0]);
    }
}

/// The state `s` once it has noted the running usage of an update.
pub open spec fn noted(s: PiState, value: JsonView) -> PiState {
    PiState {
        last_usage: match value.get("usage"@) {
            Some(usage) => Some(spent(usage)),
            None => s.last_usage,
        },
        ..s
    }
}

/// What an update of the assistant's message carries under `key`.
pub open spec fn update(value: JsonView, key: Seq<char>) -> Seq<char> {
    terms::words(terms::inside(value, "assistantMessageEvent"@, key))
}

/// An update tells its piece of text or of reasoning and adds it to the summary, unless
/// it is empty; an error of the model is told with its message, kept in the summary,
/// and marks the run as one that went wrong; any other update tells nothing. Each notes
/// the running usage, which counts only at the end of the turn.
pub proof fn law_update_tells_its_piece(s: PiState, value: JsonView)
    requires
        record(value, "message_update"@),
    ensures
        ({
            let n = noted(s, value);
            let kind = update(value, "type"@);
            let piece = update(value, "delta"@);
            let error = terms::either(
                update(value, "error"@),
                terms::either(terms::words(value.get("error"@)), "agent error"@),
            );
            s.on_record(value) == if kind == "text_delta"@ && piece.len() > 0 {
                PiState {
                    summary: SummaryView { text: s.summary.text + piece, ..s.summary },
                    ..told(n, EventView::TextDelta { role: MessageRole::Assistant, text: piece })
                }
            } else if kind == "thinking_delta"@ && piece.len() > 0 {
                PiState {
                    summary: SummaryView { reasoning: s.summary.reasoning + piece, ..s.summary },
                    ..told(n, EventView::ReasoningDelta { text: piece })
                }
            } else if kind == "error"@ {
                erred(n, error)
            } else {
                n
            }
        }),
{
    reveal_strlit("text_delta");
    reveal_strlit("thinking_delta");
    reveal_strlit("error");
    reveal(PiState::on_record);
    let t = s.on_record(value);
    let kind = value.text("type"@);
    assert(kind == terms::words(value.get("type"@)));
    assert(t == s.on_update(value)) by {
        reveal_strlit("session");
        reveal_strlit("response");
        reveal_strlit("agent_start");
        reveal_strlit("message_update");
        reveal_strlit("message_end");
        reveal_strlit("tool_execution_start");
        reveal_strlit("tool_execution_update");
        reveal_strlit("tool_execution_end");
        reveal_strlit("extension_ui_request");
        reveal_strlit("session_info_changed");
        reveal_strlit("turn_end");
        reveal_strlit("compaction_end");
        reveal_strlit("agent_settled");
        reveal_strlit("extension_error");
        assert("response"@[0] != "turn_end"@[0]);
        assert("agent_start"@[0] != "message_end"@[0]);
        assert("message_update"@[0] != "compaction_end"@[0]);
        assert("tool_execution_start"@[0] != "extension_ui_request"@[0]);
        assert("tool_execution_start"@[0] != "session_info_changed"@[0]);
        assert("extension_ui_request"@[0] != "session_info_changed"@[0]);
    }

    assert(tree::text_of(value.get2("assistantMessageEvent"@, "type"@)) == update(value, "type"@));
    assert(tree::text_of(value.get2("assistantMessageEvent"@, "delta"@)) == update(value, "delta"@));
    assert(tree::text_of(value.get2("assistantMessageEvent"@, "error"@)) == update(value, "error"@));
    assert("text_delta"@.len() == 10 && "thinking_delta"@.len() == 14 && "error"@.len() == 5);
    let n = noted(s, value);
    let piece = update(value, "delta"@);
    if update(value, "type"@) == "text_delta"@ {
        assert(t == if piece.len() > 0 {
            PiState {
                summary: SummaryView { text: s.summary.text + piece, ..s.summary },
                ..told(n, EventView::TextDelta { role: MessageRole::Assistant, text: piece })
            }
        } else {
            n
        });
    } else if update(value, "type"@) == "thinking_delta"@ {
        assert(t == if piece.len() > 0 {
            PiState {
                summary: SummaryView { reasoning: s.summary.reasoning + piece, ..s.summary },
                ..told(n, EventView::ReasoningDelta { text: piece })
            }
        } else {
            n
        });
    }
    if let Some(usage) = value.get("usage"@) {
        law_usage_is_read(usage);
    }
}

/// The end of an assistant's message notes its usage for the end of the turn; that of a
/// tool's result counts at once; any other tells nothing.
pub proof fn law_message_end_is_accounted(s: PiState, value: JsonView)
    requires
        record(value, "message_end"@),
    ensures
        ({
            let role = terms::words(terms::inside(value, "message"@, "role"@));
            s.on_record(value) == match message_spent(value) {
                Some(usage) => if role == "assistant"@ {
                    PiState { saw_structured: true, last_usage: Some(usage), ..s }
                } else if role == "toolResult"@ {
                    counted(s, usage)
                } else {
                    s
                },
                None => s,
            }
        }),
{
    reveal_strlit("assistant");
    reveal_strlit("toolResult");
    reveal(PiState::on_record);
    let t = s.on_record(value);
    let kind = value.text("type"@);
    assert(kind == terms::words(value.get("type"@)));
    assert(t == s.on_message_end(value)) by {
        reveal_strlit("session");
        reveal_strlit("response");
        reveal_strlit("agent_start");
        reveal_strlit("message_update");
        reveal_strlit("message_end");
        reveal_strlit("tool_execution_start");
        reveal_strlit("tool_execution_update");
        reveal_strlit("tool_execution_end");
        reveal_strlit("extension_ui_request");
        reveal_strlit("session_info_changed");
        reveal_strlit("turn_end");
        reveal_strlit("compaction_end");
        reveal_strlit("agent_settled");
        reveal_strlit("extension_error");
        assert("response"@[0] != "turn_end"@[0]);
        assert("agent_start"@[0] != "message_end"@[0]);
        assert("message_update"@[0] != "compaction_end"@[0]);
        assert("tool_execution_start"@[0] != "extension_ui_request"@[0]);
        assert("tool_execution_start"@[0] != "session_info_changed"@[0]);
        assert("extension_ui_request"@[0] != "session_info_changed"@[0]);
    }

    if let Some(usage) = value.get2("message"@, "usage"@) {
        law_usage_is_read(usage);
    }
}

/// The usage of a compaction counts.
pub proof fn law_compaction_is_accounted(s: PiState, value: JsonView)
    requires
        record(value, "compaction_end"@),
    ensures
        s.on_record(value) == match terms::inside(value, "result"@, "usage"@) {
            Some(usage) if usage is Object => counted(s, spent(usage)),
            _ => s,
        },
{
    reveal(PiState::on_record);
    let t = s.on_record(value);
    let kind = value.text("type"@);
    assert(kind == terms::words(value.get("type"@)));
    assert(t == s.on_compaction(value)) by {
        reveal_strlit("session");
        reveal_strlit("response");
        reveal_strlit("agent_start");
        reveal_strlit("message_update");
        reveal_strlit("message_end");
        reveal_strlit("tool_execution_start");
        reveal_strlit("tool_execution_update");
        reveal_strlit("tool_execution_end");
        reveal_strlit("extension_ui_request");
        reveal_strlit("session_info_changed");
        reveal_strlit("turn_end");
        reveal_strlit("compaction_end");
        reveal_strlit("agent_settled");
        reveal_strlit("extension_error");
        assert("response"@[0] != "turn_end"@[0]);
        assert("agent_start"@[0] != "message_end"@[0]);
        assert("message_update"@[0] != "compaction_end"@[0]);
        assert("tool_execution_start"@[0] != "extension_ui_request"@[0]);
        assert("tool_execution_start"@[0] != "session_info_changed"@[0]);
        assert("extension_ui_request"@[0] != "session_info_changed"@[0]);
    }

    if let Some(usage) = value.get2("result"@, "usage"@) {
        law_usage_is_read(usage);
    }
}

/// A tool's start, its partial results and its end are told under its id; its end says
/// whether it went well and is kept in the summary.
pub proof fn law_tool_is_told(s: PiState, value: JsonView)
    ensures
        ({
            let id = terms::words(value.get("toolCallId"@));
            let name = terms::words(value.get("toolName"@));
            let ok = !terms::affirmed(value.get("isError"@));
            let output = value.get("result"@);
            &&& record(value, "tool_execution_start"@) ==> s.on_record(value) == told(
                s,
                EventView::ToolStarted {
                    id,
                    name,
                    input: match value.get("args"@) {
                        Some(input) => input,
                        None => JsonView::Null,
                    },
                },
            )
            &&& record(value, "tool_execution_update"@) ==> s.on_record(value) == told(
                s,
                EventView::ToolUpdated {
                    id,
                    partial: match value.get("partialResult"@) {
                        Some(partial) => partial,
                        None => JsonView::Null,
                    },
                },
            )
            &&& record(value, "tool_execution_end"@) ==> s.on_record(value) == PiState {
                summary: SummaryView {
                    tool_calls: s.summary.tool_calls.push(
                        ToolCallView { id, name, input: JsonView::Null, ok, output },
                    ),
                    ..s.summary
                },
                ..told(s, EventView::ToolFinished { id, name, ok, output })
            }
        }),
{
    reveal(PiState::on_record);
    let t = s.on_record(value);
    let kind = value.text("type"@);
    assert(kind == terms::words(value.get("type"@)));
    if record(value, "tool_execution_end"@) {
        assert(t == s.on_tool_end(value)) by {
            reveal_strlit("session");
            reveal_strlit("response");
            reveal_strlit("agent_start");
            reveal_strlit("message_update");
            reveal_strlit("message_end");
            reveal_strlit("tool_execution_start");
            reveal_strlit("tool_execution_update");
            reveal_strlit("tool_execution_end");
            reveal_strlit("extension_ui_request");
            reveal_strlit("session_info_changed");
            reveal_strlit("turn_end");
            reveal_strlit("compaction_end");
            reveal_strlit("agent_settled");
            reveal_strlit("extension_error");
            assert("response"@[0] != "turn_end"@[0]);
            assert("agent_start"@[0] != "message_end"@[0]);
            assert("message_update"@[0] != "compaction_end"@[0]);
            assert("tool_execution_start"@[0] != "extension_ui_request"@[0]);
            assert("tool_execution_start"@[0] != "session_info_changed"@[0]);
            assert("extension_ui_request"@[0] != "session_info_changed"@[0]);
        }
    } else if record(value, "tool_execution_update"@) {
        assert(t == s.emit(EventView::ToolUpdated {
            id: value.text("toolCallId"@),
            partial: tree::or_null(value.get("partialResult"@)),
        })) by {
            reveal_strlit("session");
            reveal_strlit("response");
            reveal_strlit("agent_start");
            reveal_strlit("message_update");
            reveal_strlit("message_end");
            reveal_strlit("tool_execution_start");
            reveal_strlit("tool_execution_update");
            reveal_strlit("tool_execution_end");
            reveal_strlit("extension_ui_request");
            reveal_strlit("session_info_changed");
            reveal_strlit("turn_end");
            reveal_strlit("compaction_end");
            reveal_strlit("agent_settled");
            reveal_strlit("extension_error");
            assert("response"@[0] != "turn_end"@[0]);
            assert("agent_start"@[0] != "message_end"@[0]);
            assert("message_update"@[0] != "compaction_end"@[0]);
            assert("tool_execution_start"@[0] != "extension_ui_request"@[0]);
            assert("tool_execution_start"@[0] != "session_info_changed"@[0]);
            assert("extension_ui_request"@[0] != "session_info_changed"@[0]);
        }
    } else if record(value, "tool_execution_start"@) {
        assert(t == s.emit(EventView::ToolStarted {
            id: value.text("toolCallId"@),
            name: value.text("toolName"@),
            input: tree::or_null(value.get("args"@)),
        })) by {
            reveal_strlit("session");
            reveal_strlit("response");
            reveal_strlit("agent_start");
            reveal_strlit("message_update");
            reveal_strlit("message_end");
            reveal_strlit("tool_execution_start");
            reveal_strlit("tool_execution_update");
            reveal_strlit("tool_execution_end");
            reveal_strlit("extension_ui_request");
            reveal_strlit("session_info_changed");
            reveal_strlit("turn_end");
            reveal_strlit("compaction_end");
            reveal_strlit("agent_settled");
            reveal_strlit("extension_error");
            assert("response"@[0] != "turn_end"@[0]);
            assert("agent_start"@[0] != "message_end"@[0]);
            assert("message_update"@[0] != "compaction_end"@[0]);
            assert("tool_execution_start"@[0] != "extension_ui_request"@[0]);
            assert("tool_execution_start"@[0] != "session_info_changed"@[0]);
            assert("extension_ui_request"@[0] != "session_info_changed"@[0]);
        }
    }
    if record(value, "tool_execution_start"@) || record(value, "tool_execution_update"@) {
        assert("tool_execution_start"@.len() == 20 && "tool_execution_update"@.len() == 21
            && "tool_execution_end"@.len() == 18) by {
            reveal_strlit("tool_execution_start");
            reveal_strlit("tool_execution_update");
            reveal_strlit("tool_execution_end");
        }
    }
}

/// What a dialog asks: its title, or else its message.
pub open spec fn asked(value: JsonView) -> Seq<char> {
    terms::either(
        text::trimmed(terms::words(value.get("title"@))),
        text::trimmed(terms::words(value.get("message"@))),
    )
}

/// Whether a record is a dialog of this method.
pub open spec fn dialog(value: JsonView, method: Seq<char>) -> bool {
    record(value, "extension_ui_request"@) && terms::words(value.get("method"@)) == method
}

/// A dialog asks the user under its id: a choice with its options, which lasts where an
/// option speaks of always, a confirmation, or a free input. A new title is told; any
/// other dialog tells nothing.
pub proof fn law_dialog_asks_the_user(s: PiState, value: JsonView)
    ensures
        dialog(value, "select"@) ==> {
            let options = tree::texts_in(value.get("options"@));
            exists|request: InputRequestView|
                {
                    &&& s.on_record(value) == #[trigger] told(s, EventView::InputRequested { request })
                    &&& request.id == terms::words(value.get("id"@))
                    &&& request.kind == AwaitingInputKind::Choice
                    &&& request.message == asked(value)
                    &&& request.options == options
                    &&& request.allow_always == exists|i: int|
                        0 <= i < options.len() && text::occurs(
                            text::ascii_lowered(#[trigger] options[i]),
                            "always"@,
                        )
                }
        },
        dialog(value, "confirm"@) ==> s.on_record(value) == told(
            s,
            EventView::InputRequested {
                request: InputRequestView {
                    id: terms::words(value.get("id"@)),
                    kind: AwaitingInputKind::Confirmation,
                    message: asked(value),
                    options: Seq::empty(),
                    allow_always: false,
                },
            },
        ),
        dialog(value, "input"@) || dialog(value, "editor"@) ==> s.on_record(value) == told(
            s,
            EventView::InputRequested {
                request: InputRequestView {
                    id: terms::words(value.get("id"@)),
                    kind: AwaitingInputKind::Other,
                    message: asked(value),
                    options: Seq::empty(),
                    allow_always: false,
                },
            },
        ),
        dialog(value, "setTitle"@) ==> {
            let title = text::trimmed(terms::words(value.get("title"@)));
            s.on_record(value) == if title.len() > 0 {
                told(s, EventView::Title { title })
            } else {
                s
            }
        },
        record(value, "extension_ui_request"@) && !dialog(value, "select"@) && !dialog(value, "confirm"@)
            && !dialog(value, "input"@) && !dialog(value, "editor"@) && !dialog(value, "setTitle"@)
            ==> s.on_record(value) == s,
{
    reveal_strlit("session");
    reveal_strlit("response");
    reveal_strlit("agent_start");
    reveal_strlit("message_update");
    reveal_strlit("message_end");
    reveal_strlit("tool_execution_start");
    reveal_strlit("tool_execution_update");
    reveal_strlit("tool_execution_end");
    reveal_strlit("extension_ui_request");
    reveal_strlit("session_info_changed");
    reveal_strlit("turn_end");
    reveal_strlit("compaction_end");
    reveal_strlit("agent_settled");
    reveal_strlit("extension_error");
    reveal_strlit("select");
    reveal_strlit("confirm");
    reveal_strlit("input");
    reveal_strlit("editor");
    reveal_strlit("setTitle");
    assert("session"@[0] != "confirm"@[0]);
    assert("response"@[0] != "turn_end"@[0]);
    assert("response"@[0] != "setTitle"@[0]);
    assert("agent_start"@[0] != "message_end"@[0]);
    assert("message_update"@[0] != "compaction_end"@[0]);
    assert("tool_execution_start"@[0] != "extension_ui_request"@[0]);
    assert("tool_execution_start"@[0] != "session_info_changed"@[0]);
    assert("extension_ui_request"@[0] != "session_info_changed"@[0]);
    assert("turn_end"@[0] != "setTitle"@[0]);
    assert("select"@[0] != "editor"@[0]);

    reveal(PiState::on_record);
    assert(json::prompt_in(value) == asked(value));
    assert(value.text("title"@) == terms::words(value.get("title"@)));
    assert(value.text("type"@) == terms::words(value.get("type"@)));
    assert(value.text("method"@) == terms::words(value.get("method"@)));
    if dialog(value, "setTitle"@) {
        assert(s.on_record(value) == s.on_dialog(value));
    }
    if dialog(value, "select"@) {
        let options = tree::texts_in(value.get("options"@));
        let request = InputRequestView {
            id: value.text("id"@),
            kind: AwaitingInputKind::Choice,
            message: asked(value),
            options,
            allow_always: json::offers_always(options),
        };
        if json::offers_always(options) {
            let i = choose|i: int|
                0 <= i < options.len() && text::occurs(#[trigger] text::ascii_lowered(options[i]), "always"@);
            assert(text::occurs(text::ascii_lowered(options[i]), "always"@));
        }
        assert(s.on_record(value) == told(s, EventView::InputRequested { request }));
    }
}

/// A new name of the session is told and kept; a blank one is ignored.
pub proof fn law_session_is_renamed(s: PiState, value: JsonView)
    requires
        record(value, "session_info_changed"@),
    ensures
        ({
            let title = text::trimmed(terms::words(value.get("name"@)));
            s.on_record(value) == if title.len() > 0 {
                PiState {
                    summary: SummaryView { title: Some(title), ..s.summary },
                    ..told(s, EventView::Title { title })
                }
            } else {
                s
            }
        }),
{
    reveal(PiState::on_record);
    let t = s.on_record(value);
    let kind = value.text("type"@);
    assert(kind == terms::words(value.get("type"@)));
    assert(t == if text::trimmed(value.text("name"@)).len() > 0 {
        PiState {
            summary: SummaryView { title: Some(text::trimmed(value.text("name"@))), ..s.summary },
            ..s.emit(EventView::Title { title: text::trimmed(value.text("name"@)) })
        }
    } else {
        s
    }) by {
        reveal_strlit("session");
        reveal_strlit("response");
        reveal_strlit("agent_start");
        reveal_strlit("message_update");
        reveal_strlit("message_end");
        reveal_strlit("tool_execution_start");
        reveal_strlit("tool_execution_update");
        reveal_strlit("tool_execution_end");
        reveal_strlit("extension_ui_request");
        reveal_strlit("session_info_changed");
        reveal_strlit("turn_end");
        reveal_strlit("compaction_end");
        reveal_strlit("agent_settled");
        reveal_strlit("extension_error");
        assert("response"@[0] != "turn_end"@[0]);
        assert("agent_start"@[0] != "message_end"@[0]);
        assert("message_update"@[0] != "compaction_end"@[0]);
        assert("tool_execution_start"@[0] != "extension_ui_request"@[0]);
        assert("tool_execution_start"@[0] != "session_info_changed"@[0]);
        assert("extension_ui_request"@[0] != "session_info_changed"@[0]);
    }
    assert(value.text("name"@) == terms::words(value.get("name"@)));
}

/// At the end of a turn its usage counts, once: that of the message in the record, or
/// else the one noted last. Then the totals are asked for.
pub proof fn law_turn_is_accounted_once(s: PiState, value: JsonView)
    requires
        record(value, "turn_end"@),
    ensures
        ({
            let free = PiState { last_usage: None, ..s };
            s.on_record(value) == match (message_spent(value), s.last_usage) {
                (Some(usage), _) => asking(counted(free, usage)),
                (None, Some(usage)) => asking(counted(free, usage)),
                (None, None) => asking(free),
            }
        }),
{
    reveal(PiState::on_record);
    let t = s.on_record(value);
    let kind = value.text("type"@);
    assert(kind == terms::words(value.get("type"@)));
    assert(t == s.on_turn_end(value)) by {
        reveal_strlit("session");
        reveal_strlit("response");
        reveal_strlit("agent_start");
        reveal_strlit("message_update");
        reveal_strlit("message_end");
        reveal_strlit("tool_execution_start");
        reveal_strlit("tool_execution_update");
        reveal_strlit("tool_execution_end");
        reveal_strlit("extension_ui_request");
        reveal_strlit("session_info_changed");
        reveal_strlit("turn_end");
        reveal_strlit("compaction_end");
        reveal_strlit("agent_settled");
        reveal_strlit("extension_error");
        assert("response"@[0] != "turn_end"@[0]);
        assert("agent_start"@[0] != "message_end"@[0]);
        assert("message_update"@[0] != "compaction_end"@[0]);
        assert("tool_execution_start"@[0] != "extension_ui_request"@[0]);
        assert("tool_execution_start"@[0] != "session_info_changed"@[0]);
        assert("extension_ui_request"@[0] != "session_info_changed"@[0]);
    }

    if let Some(usage) = value.get2("message"@, "usage"@) {
        law_usage_is_read(usage);
    }
}

/// A settled agent ends the run: it failed just where an error was told before. The
/// totals are asked for, and pi's input is closed by one end of transmission.
pub proof fn law_settled_run_ends(s: PiState, value: JsonView)
    requires
        record(value, "agent_settled"@),
    ensures
        ({
            let outcome = if s.saw_error {
                IdleOutcome::Failed
            } else {
                IdleOutcome::Succeeded
            };
            let done = PiState {
                saw_settled: true,
                summary: SummaryView { outcome: Some(outcome), ..s.summary },
                ..told(s, EventView::Idle { outcome })
            };
            s.on_record(value) == if s.holds_stdin {
                PiState {
                    holds_stdin: false,
                    outgoing: asking(done).outgoing.push(4u8),
                    ..done
                }
            } else {
                done
            }
        }),
{
    reveal(PiState::on_record);
    let t = s.on_record(value);
    let kind = value.text("type"@);
    assert(kind == terms::words(value.get("type"@)));
    assert(t == s.on_settled()) by {
        reveal_strlit("session");
        reveal_strlit("response");
        reveal_strlit("agent_start");
        reveal_strlit("message_update");
        reveal_strlit("message_end");
        reveal_strlit("tool_execution_start");
        reveal_strlit("tool_execution_update");
        reveal_strlit("tool_execution_end");
        reveal_strlit("extension_ui_request");
        reveal_strlit("session_info_changed");
        reveal_strlit("turn_end");
        reveal_strlit("compaction_end");
        reveal_strlit("agent_settled");
        reveal_strlit("extension_error");
        assert("response"@[0] != "turn_end"@[0]);
        assert("agent_start"@[0] != "message_end"@[0]);
        assert("message_update"@[0] != "compaction_end"@[0]);
        assert("tool_execution_start"@[0] != "extension_ui_request"@[0]);
        assert("tool_execution_start"@[0] != "session_info_changed"@[0]);
        assert("extension_ui_request"@[0] != "session_info_changed"@[0]);
    }
}

/// An error of an extension is told, kept, and marks the run as one that went wrong.
pub proof fn law_extension_error_is_told(s: PiState, value: JsonView)
    requires
        record(value, "extension_error"@),
    ensures
        s.on_record(value) == erred(
            s,
            terms::either(text::trimmed(terms::words(value.get("error"@))), "extension error"@),
        ),
{
    reveal(PiState::on_record);
    let t = s.on_record(value);
    let kind = value.text("type"@);
    assert(kind == terms::words(value.get("type"@)));
    assert(t == s.fail(tree::non_empty_or(text::trimmed(value.text("error"@)), "extension error"@))) by {
        reveal_strlit("session");
        reveal_strlit("response");
        reveal_strlit("agent_start");
        reveal_strlit("message_update");
        reveal_strlit("message_end");
        reveal_strlit("tool_execution_start");
        reveal_strlit("tool_execution_update");
        reveal_strlit("tool_execution_end");
        reveal_strlit("extension_ui_request");
        reveal_strlit("session_info_changed");
        reveal_strlit("turn_end");
        reveal_strlit("compaction_end");
        reveal_strlit("agent_settled");
        reveal_strlit("extension_error");
        assert("response"@[0] != "turn_end"@[0]);
        assert("agent_start"@[0] != "message_end"@[0]);
        assert("message_update"@[0] != "compaction_end"@[0]);
        assert("tool_execution_start"@[0] != "extension_ui_request"@[0]);
        assert("tool_execution_start"@[0] != "session_info_changed"@[0]);
        assert("extension_ui_request"@[0] != "session_info_changed"@[0]);
    }
    assert(value.text("error"@) == terms::words(value.get("error"@)));
}

/// A value that is no object, and a record of another type, changes nothing.
pub proof fn law_other_records_are_ignored(s: PiState, value: JsonView)
    requires
        !(value is Object) || other_kind(terms::words(value.get("type"@))),
    ensures
        s.on_record(value) == s,
{
    reveal(PiState::on_record);
}

/// An error is never forgotten: once one was told, whatever record follows, the settled
/// run has failed.
pub proof fn law_error_fails_the_run(s: PiState, value: JsonView, settled: JsonView)
    requires
        s.saw_error,
        record(settled, "agent_settled"@),
    ensures
        s.on_record(value).saw_error,
        s.on_record(value).on_record(settled).summary.outcome == Some(IdleOutcome::Failed),
        s.on_record(value).on_record(settled).events.last() == (EventView::Idle { outcome: IdleOutcome::Failed }),
{
    assert(s.on_record(value).saw_error) by {
        reveal(PiState::on_record);
    }
    law_settled_run_ends(s.on_record(value), settled);
}

/// At the end of the stream a usage that is still noted counts. A settled run keeps its
/// outcome; one that did not settle failed with an error or a bad exit, and was
/// interrupted otherwise; a stream without a record has no outcome.
pub proof fn law_unsettled_run_is_no_success(s: PiState, exit_code: Option<i32>)
    ensures
        ({
            let free = PiState { last_usage: None, ..s };
            let whole = match s.last_usage {
                Some(usage) => counted(free, usage),
                None => free,
            };
            let outcome = if s.saw_error || terms::failed_exit(exit_code) {
                IdleOutcome::Failed
            } else {
                IdleOutcome::Interrupted
            };
            s.concluded(exit_code) == if !s.saw_structured {
                s
            } else if s.saw_settled {
                whole
            } else {
                PiState {
                    summary: SummaryView { outcome: Some(outcome), ..whole.summary },
                    ..told(whole, EventView::Idle { outcome })
                }
            }
        }),
{
}

/// A line that the stream ends in without a line feed is read like any other, before
/// the run is judged; where it brings totals, the judgement waits for the verdict on
/// them.
pub proof fn law_last_line_is_read(s: PiState, rest: Seq<u8>, exit_code: Option<i32>)
    requires
        !s.finished,
    ensures
        ({
            let tail = text::trimmed(crate::lines::lossy_text(rest));
            let read = (PiState { finished: true, ..s }).on_line(tail);
            s.ended(rest, exit_code) == if read.question is Some {
                PiState { concluding: Some(exit_code), ..read }
            } else {
                read.concluded(exit_code)
            }
        }),
{
    let tail = text::trimmed(crate::lines::lossy_text(rest));
    if tail.len() == 0 {
        assert(text::trimmed(tail).len() == 0);
    }
}

/// A parser that was handed pi's input asks for totals and closes the input; one that
/// was not writes nothing.
pub proof fn law_fresh_parser_holds_the_input(holds: bool)
    ensures
        PiState::start(holds).holds_stdin == holds,
        PiState::start(holds).asks_stats == holds,
        PiState::start(holds).outgoing.len() == 0,
        PiState::start(holds).events.len() == 0,
        PiState::start(holds).summary.outcome is None,
        PiState::start(holds).summary.usage == model::no_usage(),
        PiState::start(holds).emitted_usage == model::no_usage(),
        !PiState::start(holds).saw_structured && !PiState::start(holds).saw_error && !PiState::start(holds).saw_settled && !PiState::start(holds).finished,
{
}

} // verus!
