//! What each row of a `ClaudeAgent` tells.
use crate::agents::claude::stream_json;
use crate::agents::claude::stream_json::ClaudeState;
use crate::agents::terms;
use crate::json as tree;
use crate::json::JsonView;
use crate::lines;
use crate::model::{
    AgentUsage, EventView, IdleOutcome, MessageRole, SummaryView, ToolCallView,
};
use crate::text;
use vstd::prelude::*;

verus! {

/// Whether a row is of this type.
pub open spec fn row(value: JsonView, kind: Seq<char>) -> bool {
    value is Object && terms::words(value.get("type"@)) == kind
}

/// The state `s` once it has told `event`.
pub open spec fn told(s: ClaudeState, event: EventView) -> ClaudeState {
    ClaudeState { events: s.events.push(event), saw_structured: true, ..s }
}

/// The state `s` once a turn is in flight, which is told where it begins.
pub open spec fn turning(s: ClaudeState) -> ClaudeState {
    ClaudeState {
        events: if s.in_turn {
            s.events
        } else {
            s.events.push(EventView::TurnStarted)
        },
        saw_structured: true,
        in_turn: true,
        ..s
    }
}

/// The state `s` once it has told a piece of the answer and put it in the summary.
pub open spec fn spoken(s: ClaudeState, piece: Seq<char>) -> ClaudeState {
    ClaudeState {
        summary: SummaryView { text: s.summary.text + piece, ..s.summary },
        ..told(s, EventView::TextDelta { role: MessageRole::Assistant, text: piece })
    }
}

/// The state `s` once it has told a piece of the reasoning and put it in the summary.
pub open spec fn pondered(s: ClaudeState, piece: Seq<char>) -> ClaudeState {
    ClaudeState {
        summary: SummaryView { reasoning: s.summary.reasoning + piece, ..s.summary },
        ..told(s, EventView::ReasoningDelta { text: piece })
    }
}

/// The first of two values that is a string, else `otherwise`.
pub open spec fn said(a: Option<JsonView>, b: Option<JsonView>, otherwise: Seq<char>) -> Seq<char> {
    match (a, b) {
        (Some(JsonView::Str(s)), _) => s,
        (_, Some(JsonView::Str(s))) => s,
        _ => otherwise,
    }
}

/// The string that a value is.
pub open spec fn string(v: Option<JsonView>) -> Option<Seq<char>> {
    match v {
        Some(JsonView::Str(s)) => Some(s),
        _ => None,
    }
}

/// Whether a row is a message of this type with these blocks.
pub open spec fn holds(value: JsonView, kind: Seq<char>, blocks: Seq<JsonView>) -> bool {
    row(value, kind) && terms::inside(value, "message"@, "content"@) == Some(JsonView::Array(blocks))
}

/// The first row announces its session with its model, once; without an id it announces
/// nothing.
pub proof fn law_init_announces_the_session(s: ClaudeState, value: JsonView)
    requires
        row(value, "system"@),
        terms::words(value.get("subtype"@)) == "init"@,
    ensures
        ({
            let id = terms::words(value.get("session_id"@));
            let model = string(value.get("model"@));
            s.on_record(value) == if id.len() > 0 && !s.announced_session {
                ClaudeState {
                    announced_session: true,
                    summary: SummaryView { session_id: Some(id), ..s.summary },
                    ..told(s, EventView::Session { session_id: Some(id), title: None, model })
                }
            } else {
                ClaudeState { saw_structured: true, ..s }
            }
        }),
{
    reveal_strlit("init");
    reveal_strlit("api_retry");
    reveal(ClaudeState::on_record);
    let t = s.on_record(value);
    assert(value.text("type"@) == terms::words(value.get("type"@)));
    assert(t == s.on_system(value)) by {
        reveal_strlit("system");
        reveal_strlit("stream_event");
        reveal_strlit("assistant");
        reveal_strlit("user");
        reveal_strlit("result");
        reveal_strlit("error");
        assert("system"@[0] != "result"@[0]);
    }
}

/// A retry is told as an error, and neither fails the run nor enters the summary.
pub proof fn law_retry_is_told_and_forgiven(s: ClaudeState, value: JsonView)
    requires
        row(value, "system"@),
        terms::words(value.get("subtype"@)) == "api_retry"@,
    ensures
        s.on_record(value) == told(
            s,
            EventView::Error { message: said(value.get("error"@), value.get("message"@), "api retry"@) },
        ),
{
    reveal_strlit("init");
    reveal_strlit("api_retry");
    reveal(ClaudeState::on_record);
    let t = s.on_record(value);
    assert(value.text("type"@) == terms::words(value.get("type"@)));
    assert(t == s.on_system(value)) by {
        reveal_strlit("system");
        reveal_strlit("stream_event");
        reveal_strlit("assistant");
        reveal_strlit("user");
        reveal_strlit("result");
        reveal_strlit("error");
        assert("system"@[0] != "result"@[0]);
    }
    assert(value.text("subtype"@) == terms::words(value.get("subtype"@)));
    assert("init"@.len() != "api_retry"@.len());
    let message = said(value.get("error"@), value.get("message"@), "api retry"@);
    assert(t == s.emit(EventView::Error { message }));
}

/// Any other row of the system changes nothing.
pub proof fn law_other_system_rows_are_nothing(s: ClaudeState, value: JsonView)
    requires
        row(value, "system"@),
        terms::words(value.get("subtype"@)) != "init"@,
        terms::words(value.get("subtype"@)) != "api_retry"@,
    ensures
        s.on_record(value) == s,
{
    reveal(ClaudeState::on_record);
    let t = s.on_record(value);
    assert(value.text("type"@) == terms::words(value.get("type"@)));
    assert(t == s.on_system(value)) by {
        reveal_strlit("system");
        reveal_strlit("stream_event");
        reveal_strlit("assistant");
        reveal_strlit("user");
        reveal_strlit("result");
        reveal_strlit("error");
        assert("system"@[0] != "result"@[0]);
    }
}

/// The start of a message is the start of a turn, told once; a piece of text or of
/// reasoning is told at once, unless it is empty, and what came in pieces is not told
/// again; any other partial row is nothing.
pub proof fn law_partial_rows_are_told(s: ClaudeState, value: JsonView)
    requires
        row(value, "stream_event"@),
    ensures
        ({
            let kind = terms::words(terms::inside(value, "event"@, "type"@));
            let delta = terms::inside(value, "event"@, "delta"@);
            let sort = match delta {
                Some(d) => terms::words(d.get("type"@)),
                None => Seq::empty(),
            };
            let piece = match delta {
                Some(d) => terms::words(d.get("text"@)),
                None => Seq::empty(),
            };
            let thought = match delta {
                Some(d) => terms::words(d.get("thinking"@)),
                None => Seq::empty(),
            };
            s.on_record(value) == if kind == "message_start"@ {
                turning(s)
            } else if kind == "content_block_delta"@ && sort == "text_delta"@ && piece.len() > 0 {
                ClaudeState { saw_partial: true, ..spoken(s, piece) }
            } else if kind == "content_block_delta"@ && sort == "thinking_delta"@ && thought.len() > 0 {
                ClaudeState { saw_partial: true, ..pondered(s, thought) }
            } else {
                s
            }
        }),
{
    reveal_strlit("message_start");
    reveal_strlit("content_block_delta");
    reveal_strlit("text_delta");
    reveal_strlit("thinking_delta");
    reveal(ClaudeState::on_record);
    let t = s.on_record(value);
    assert(value.text("type"@) == terms::words(value.get("type"@)));
    assert(t == s.on_stream_event(value)) by {
        reveal_strlit("system");
        reveal_strlit("stream_event");
        reveal_strlit("assistant");
        reveal_strlit("user");
        reveal_strlit("result");
        reveal_strlit("error");
    }

    if let Some(event) = value.get("event"@) {
        assert(event.text("type"@) == terms::words(event.get("type"@)));
        if let Some(delta) = event.get("delta"@) {
            assert(delta.text("type"@) == terms::words(delta.get("type"@)));
            assert(delta.text("text"@) == terms::words(delta.get("text"@)));
            assert(delta.text("thinking"@) == terms::words(delta.get("thinking"@)));
        }
    }
}

proof fn lemma_blocks_in_order(s: ClaudeState, front: Seq<JsonView>, block: JsonView, from: int)
    requires
        0 <= from <= front.len(),
    ensures
        s.on_blocks(front.push(block), from) == s.on_blocks(front, from).on_block(block),
        s.on_result_blocks(front.push(block), from) == s.on_result_blocks(front, from).on_result_block(
            block,
        ),
    decreases front.len() - from,
{
    let all = front.push(block);
    if from < front.len() {
        assert(all[from] == front[from]);
        lemma_blocks_in_order(s.on_block(front[from]), front, block, from + 1);
        lemma_blocks_in_order(s.on_result_block(front[from]), front, block, from + 1);
    } else {
        reveal_with_fuel(ClaudeState::on_blocks, 2);
        reveal_with_fuel(ClaudeState::on_result_blocks, 2);
    }
}

/// A message of the assistant tells its blocks one after the other: it is the message
/// without the last block and then a message with that block alone; one without blocks
/// is nothing.
pub proof fn law_assistant_blocks_are_told_in_order(s: ClaudeState, value: JsonView, blocks: Seq<JsonView>, before: JsonView, last: JsonView)
    requires
        holds(value, "assistant"@, blocks),
        blocks.len() > 0 ==> holds(before, "assistant"@, blocks.drop_last()) && holds(
            last,
            "assistant"@,
            seq![blocks.last()],
        ),
    ensures
        s.on_record(value) == if blocks.len() > 0 {
            s.on_record(before).on_record(last)
        } else {
            s
        },
{
    reveal(ClaudeState::on_record);
    reveal_strlit("system");
    reveal_strlit("stream_event");
    reveal_strlit("assistant");
    reveal_strlit("user");
    reveal_strlit("result");
    reveal_strlit("error");
    assert(value.text("type"@) == terms::words(value.get("type"@)));
    assert(s.on_record(value) == s.on_blocks(blocks, 0));
    if blocks.len() > 0 {
        assert(blocks.drop_last().push(blocks.last()) == blocks);
        lemma_blocks_in_order(s, blocks.drop_last(), blocks.last(), 0);
        assert(before.text("type"@) == terms::words(before.get("type"@)));
        assert(last.text("type"@) == terms::words(last.get("type"@)));
        let t = s.on_record(before);
        assert(t == s.on_blocks(blocks.drop_last(), 0));
        assert(t.on_record(last) == t.on_blocks(seq![blocks.last()], 0));
        reveal_with_fuel(ClaudeState::on_blocks, 2);
    }
}

/// A message of the user tells its blocks one after the other: it is the message
/// without the last block and then a message with that block alone; one without blocks
/// is nothing.
pub proof fn law_user_blocks_are_told_in_order(s: ClaudeState, value: JsonView, blocks: Seq<JsonView>, before: JsonView, last: JsonView)
    requires
        holds(value, "user"@, blocks),
        blocks.len() > 0 ==> holds(before, "user"@, blocks.drop_last()) && holds(
            last,
            "user"@,
            seq![blocks.last()],
        ),
    ensures
        s.on_record(value) == if blocks.len() > 0 {
            s.on_record(before).on_record(last)
        } else {
            s
        },
{
    reveal(ClaudeState::on_record);
    reveal_strlit("system");
    reveal_strlit("stream_event");
    reveal_strlit("assistant");
    reveal_strlit("user");
    reveal_strlit("result");
    reveal_strlit("error");
    assert(value.text("type"@) == terms::words(value.get("type"@)));
    assert(s.on_record(value) == s.on_result_blocks(blocks, 0));
    if blocks.len() > 0 {
        assert(blocks.drop_last().push(blocks.last()) == blocks);
        lemma_blocks_in_order(s, blocks.drop_last(), blocks.last(), 0);
        assert(before.text("type"@) == terms::words(before.get("type"@)));
        assert(last.text("type"@) == terms::words(last.get("type"@)));
        let t = s.on_record(before);
        assert(t == s.on_result_blocks(blocks.drop_last(), 0));
        assert(t.on_record(last) == t.on_result_blocks(seq![blocks.last()], 0));
        reveal_with_fuel(ClaudeState::on_result_blocks, 2);
    }
}

/// A block of text or of reasoning is told within a turn, unless it is empty, and only
/// where nothing came in pieces before; a call of a tool is told and awaits its result;
/// any other block is nothing.
pub proof fn law_assistant_block_is_told(s: ClaudeState, value: JsonView, block: JsonView)
    requires
        holds(value, "assistant"@, seq![block]),
    ensures
        ({
            let kind = terms::words(block.get("type"@));
            let piece = terms::words(block.get("text"@));
            let thought = terms::words(block.get("thinking"@));
            let id = terms::words(block.get("id"@));
            let name = terms::words(block.get("name"@));
            let input = match block.get("input"@) {
                Some(input) => input,
                None => JsonView::Null,
            };
            let busy = turning(s);
            s.on_record(value) == if kind == "text"@ && piece.len() > 0 {
                if s.saw_partial {
                    busy
                } else {
                    spoken(busy, piece)
                }
            } else if kind == "thinking"@ && thought.len() > 0 {
                if s.saw_partial {
                    busy
                } else {
                    pondered(busy, thought)
                }
            } else if kind == "tool_use"@ {
                ClaudeState {
                    tool_names: s.tool_names.insert(id, name),
                    pending_tools: s.pending_tools.insert(id, s.summary.tool_calls.len() as usize),
                    summary: SummaryView {
                        tool_calls: s.summary.tool_calls.push(
                            ToolCallView { id, name, input, ok: false, output: None },
                        ),
                        ..s.summary
                    },
                    ..told(busy, EventView::ToolStarted { id, name, input })
                }
            } else {
                s
            }
        }),
{
    reveal_strlit("text");
    reveal_strlit("thinking");
    reveal_strlit("tool_use");
    assert("thinking"@[1] != "tool_use"@[1]);
    reveal(ClaudeState::on_record);
    let t = s.on_record(value);
    assert(value.text("type"@) == terms::words(value.get("type"@)));
    assert(t == s.on_block(block)) by {
        reveal_with_fuel(ClaudeState::on_blocks, 2);
        reveal_strlit("system");
        reveal_strlit("stream_event");
        reveal_strlit("assistant");
        reveal_strlit("user");
        reveal_strlit("result");
        reveal_strlit("error");
    }
    assert(block.text("type"@) == terms::words(block.get("type"@)));
    assert(block.text("text"@) == terms::words(block.get("text"@)));
    assert(block.text("thinking"@) == terms::words(block.get("thinking"@)));
}

/// The result of a tool is told under the name its call had, well exactly where it
/// reports no error, and completes that call in the summary, or enters it where none
/// waits; any other block of the user is nothing.
pub proof fn law_tool_result_completes_its_call(s: ClaudeState, value: JsonView, block: JsonView)
    requires
        holds(value, "user"@, seq![block]),
    ensures
        ({
            let id = terms::words(block.get("tool_use_id"@));
            let name = if s.tool_names.contains_key(id) {
                s.tool_names[id]
            } else {
                Seq::empty()
            };
            let ok = !terms::affirmed(block.get("is_error"@));
            let output = block.get("content"@);
            let calls = s.summary.tool_calls;
            s.on_record(value) == if terms::words(block.get("type"@)) == "tool_result"@ {
                ClaudeState {
                    pending_tools: s.pending_tools.remove(id),
                    summary: SummaryView {
                        tool_calls: if !s.pending_tools.contains_key(id) {
                            calls.push(ToolCallView { id, name, input: JsonView::Null, ok, output })
                        } else if s.pending_tools[id] < calls.len() {
                            calls.update(
                                s.pending_tools[id] as int,
                                ToolCallView { ok, output, ..calls[s.pending_tools[id] as int] },
                            )
                        } else {
                            calls
                        },
                        ..s.summary
                    },
                    ..told(s, EventView::ToolFinished { id, name, ok, output })
                }
            } else {
                s
            }
        }),
{
    reveal_strlit("tool_result");
    reveal(ClaudeState::on_record);
    let t = s.on_record(value);
    assert(value.text("type"@) == terms::words(value.get("type"@)));
    assert(t == s.on_result_block(block)) by {
        reveal_with_fuel(ClaudeState::on_result_blocks, 2);
        reveal_strlit("system");
        reveal_strlit("stream_event");
        reveal_strlit("assistant");
        reveal_strlit("user");
        reveal_strlit("result");
        reveal_strlit("error");
    }
    assert(block.text("tool_use_id"@) == terms::words(block.get("tool_use_id"@)));
    if terms::words(block.get("type"@)) == "tool_result"@ {
        assert(tree::str_of(block.get("type"@)) == Some("tool_result"@));
    }
}

/// A message of the assistant without a list of blocks changes nothing.
pub proof fn law_assistant_without_blocks_is_nothing(s: ClaudeState, value: JsonView)
    requires
        row(value, "assistant"@),
        !(terms::inside(value, "message"@, "content"@) matches Some(JsonView::Array(_))),
    ensures
        s.on_record(value) == s,
{
    reveal(ClaudeState::on_record);
    let t = s.on_record(value);
    assert(value.text("type"@) == terms::words(value.get("type"@)));
    assert(t == s) by {
        reveal_strlit("system");
        reveal_strlit("stream_event");
        reveal_strlit("assistant");
        reveal_strlit("user");
        reveal_strlit("result");
        reveal_strlit("error");
    }
}

/// A message of the user without a list of blocks changes nothing.
pub proof fn law_user_without_blocks_is_nothing(s: ClaudeState, value: JsonView)
    requires
        row(value, "user"@),
        !(terms::inside(value, "message"@, "content"@) matches Some(JsonView::Array(_))),
    ensures
        s.on_record(value) == s,
{
    reveal(ClaudeState::on_record);
    let t = s.on_record(value);
    assert(value.text("type"@) == terms::words(value.get("type"@)));
    assert(t == s) by {
        reveal_strlit("system");
        reveal_strlit("stream_event");
        reveal_strlit("assistant");
        reveal_strlit("user");
        reveal_strlit("result");
        reveal_strlit("error");
    }
}

/// The usage that a final row reports.
pub open spec fn spent(value: JsonView) -> AgentUsage {
    AgentUsage {
        input_tokens: terms::tally(terms::inside(value, "usage"@, "input_tokens"@)),
        output_tokens: terms::tally(terms::inside(value, "usage"@, "output_tokens"@)),
        reasoning_tokens: 0,
        cache_read_tokens: terms::tally(terms::inside(value, "usage"@, "cache_read_input_tokens"@)),
        cache_write_tokens: terms::tally(
            terms::inside(value, "usage"@, "cache_creation_input_tokens"@),
        ),
        cost_usd: terms::dollars(value.get("total_cost_usd"@)),
    }
}

/// A final row that reports an error makes the run fail, with the error that it names,
/// else its result, else its subtype; any other makes it succeed. The turn is over, the
/// usage counts and is told, and the result is the text of the run.
pub proof fn law_result_decides_the_outcome(s: ClaudeState, value: JsonView)
    requires
        row(value, "result"@),
    ensures
        ({
            let t = s.on_record(value);
            let failed = terms::affirmed(value.get("is_error"@));
            &&& t.summary.outcome == Some(
                if failed {
                    IdleOutcome::Failed
                } else {
                    IdleOutcome::Succeeded
                },
            )
            &&& t.saw_error == (s.saw_error || failed)
            &&& t.summary.error == match value.get("error"@) {
                Some(JsonView::Str(error)) => Some(error),
                _ => if failed {
                    Some(
                        terms::either(
                            terms::words(value.get("result"@)),
                            terms::either(terms::words(value.get("subtype"@)), "agent error"@),
                        ),
                    )
                } else {
                    None
                },
            }
            &&& t.summary.text == match value.get("result"@) {
                Some(JsonView::Str(result)) => result,
                _ => s.summary.text,
            }
            &&& t.summary.usage == s.summary.usage.merged(spent(value))
            &&& t.summary.session_id == match value.get("session_id"@) {
                Some(JsonView::Str(id)) => Some(id),
                _ => s.summary.session_id,
            }
            &&& t.summary.reasoning == s.summary.reasoning
            &&& t.summary.title == s.summary.title
            &&& t.summary.tool_calls == s.summary.tool_calls
            &&& t.saw_result
            &&& t.saw_structured
            &&& !t.in_turn
            &&& t.finished == s.finished
            &&& t.saw_partial == s.saw_partial
            &&& t.tool_names == s.tool_names
            &&& t.pending_tools == s.pending_tools
        }),
        ({
            let t = s.on_record(value);
            let usage = EventView::Usage { usage: spent(value) };
            match value.get("session_id"@) {
                Some(JsonView::Str(id)) if id.len() > 0 && !s.announced_session => {
                    &&& t.events =~= s.events.push(
                        EventView::Session { session_id: Some(id), title: None, model: None },
                    ).push(usage)
                    &&& t.announced_session
                },
                _ => t.events =~= s.events.push(usage) && t.announced_session == s.announced_session,
            }
        }),
{
    reveal(ClaudeState::on_record);
    let t = s.on_record(value);
    assert(value.text("type"@) == terms::words(value.get("type"@)));
    assert(t == s.on_result(value)) by {
        reveal_strlit("system");
        reveal_strlit("stream_event");
        reveal_strlit("assistant");
        reveal_strlit("user");
        reveal_strlit("result");
        reveal_strlit("error");
        assert("result"@[0] != "system"@[0]);
    }
    assert(stream_json::result_usage(value) == spent(value));
    assert(value.text("result"@) == terms::words(value.get("result"@)));
    assert(value.text("subtype"@) == terms::words(value.get("subtype"@)));
}

/// An error is told with its message, kept in the summary, and makes a run that reports
/// no outcome fail.
pub proof fn law_error_is_told_and_kept(s: ClaudeState, value: JsonView)
    requires
        row(value, "error"@),
    ensures
        ({
            let message = said(
                terms::inside(value, "error"@, "message"@),
                value.get("message"@),
                "agent error"@,
            );
            s.on_record(value) == ClaudeState {
                saw_error: true,
                summary: SummaryView { error: Some(message), ..s.summary },
                ..told(s, EventView::Error { message })
            }
        }),
{
    reveal(ClaudeState::on_record);
    let t = s.on_record(value);
    assert(value.text("type"@) == terms::words(value.get("type"@)));
    assert(t == s.on_error(value)) by {
        reveal_strlit("system");
        reveal_strlit("stream_event");
        reveal_strlit("assistant");
        reveal_strlit("user");
        reveal_strlit("result");
        reveal_strlit("error");
    }
}

/// A row of any other type changes nothing.
pub proof fn law_other_rows_are_nothing(s: ClaudeState, value: JsonView)
    requires
        terms::words(value.get("type"@)) != "system"@ && terms::words(value.get("type"@)) != "stream_event"@ && terms::words(value.get("type"@)) != "assistant"@ && terms::words(value.get("type"@)) != "user"@ && terms::words(value.get("type"@)) != "result"@ && terms::words(value.get("type"@)) != "error"@,
    ensures
        s.on_record(value) == s,
{
    reveal(ClaudeState::on_record);
    assert(value.text("type"@) == terms::words(value.get("type"@)));
}

/// The end of a run with rows tells its outcome and puts it in the summary: the
/// reported one; without one a failure after an error or a bad exit, a success after a
/// final row, and else an interruption. Output without rows has no outcome.
pub proof fn law_end_tells_the_outcome(s: ClaudeState, rest: Seq<u8>, exit_code: Option<i32>)
    requires
        !s.finished,
        lines::last_line(rest).len() == 0,
    ensures
        ({
            let t = s.ended(rest, exit_code);
            let outcome = match s.summary.outcome {
                Some(reported) => reported,
                None => if s.saw_error || terms::failed_exit(exit_code) {
                    IdleOutcome::Failed
                } else if s.saw_result {
                    IdleOutcome::Succeeded
                } else {
                    IdleOutcome::Interrupted
                },
            };
            t == if s.saw_structured {
                ClaudeState {
                    finished: true,
                    summary: SummaryView { outcome: Some(outcome), ..s.summary },
                    ..told(s, EventView::Idle { outcome })
                }
            } else {
                ClaudeState { finished: true, ..s }
            }
        }),
{
}

/// A last line without its end is read as any other before the run ends.
pub proof fn law_last_line_is_read(s: ClaudeState, rest: Seq<u8>, none: Seq<u8>, exit_code: Option<i32>)
    requires
        !s.finished,
        lines::last_line(none).len() == 0,
    ensures
        s.ended(rest, exit_code) == (ClaudeState {
            finished: false,
            ..ClaudeState { finished: true, ..s }.on_line(lines::last_line(rest))
        }).ended(none, exit_code),
{
    let done = ClaudeState { finished: true, ..s };
    let tail = lines::last_line(rest);
    lemma_line_keeps_the_end(done, tail);
}

proof fn lemma_line_keeps_the_end(s: ClaudeState, line: Seq<char>)
    ensures
        s.on_line(line).finished == s.finished,
        line.len() == 0 ==> s.on_line(line) == s,
{
    reveal(ClaudeState::on_record);
    let content = text::trimmed(line);
    if content.len() > 0 {
        if let Some(value) = tree::parsed_text(content) {
            if let Some(blocks) = tree::items_of(value.get2("message"@, "content"@)) {
                lemma_blocks_keep_the_end(s, blocks, 0);
            }
        }
    }
}

proof fn lemma_blocks_keep_the_end(s: ClaudeState, blocks: Seq<JsonView>, from: int)
    ensures
        s.on_blocks(blocks, from).finished == s.finished,
        s.on_result_blocks(blocks, from).finished == s.finished,
    decreases blocks.len() - from,
{
    if 0 <= from < blocks.len() {
        lemma_blocks_keep_the_end(s.on_block(blocks[from]), blocks, from + 1);
        lemma_blocks_keep_the_end(s.on_result_block(blocks[from]), blocks, from + 1);
    }
}

/// A line is the row that it holds, whatever white space stands around it; one that
/// holds none changes nothing.
pub proof fn law_line_is_its_row(s: ClaudeState, line: Seq<char>)
    ensures
        s.on_line(line) == match tree::parsed_text(text::trimmed(line)) {
            Some(value) if text::trimmed(line).len() > 0 => s.on_record(value),
            _ => s,
        },
{
}

} // verus!
