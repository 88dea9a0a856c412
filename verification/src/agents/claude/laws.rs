//! What holds of every stream of [`ClaudeState`].
use crate::agents::claude::stream_json::ClaudeState;
use crate::json;
use crate::json::JsonView;
use crate::model;
use crate::model::{EventView, IdleOutcome};
use crate::table;
use crate::text;
use vstd::prelude::*;

verus! {

/// Noise is ignored: a line that is blank, no JSON, or JSON but no object
/// leaves everything as it was.
pub proof fn law_noise_changes_nothing(s: ClaudeState, line: Seq<char>)
    requires
        text::trimmed(line).len() == 0 || (json::parsed_text(text::trimmed(line)) matches Some(v)
            ==> !(v is Object)),
    ensures
        s.on_line(line) == s,
{
    reveal(ClaudeState::on_record);
}

/// A stream that ends without a result is not a success, whatever the exit code;
/// one without a single row has no outcome at all; and the end of any other is
/// told exactly once, last.
pub proof fn law_end(s: ClaudeState, exit_code: Option<i32>)
    ensures
        !s.saw_structured ==> s.concluded(exit_code) == s,
        s.saw_structured && s.summary.outcome is None && !s.saw_result ==> s.concluded(
            exit_code,
        ).summary.outcome != Some(IdleOutcome::Succeeded),
        s.saw_structured ==> s.concluded(exit_code).events == s.events.push(
            EventView::Idle { outcome: s.concluded(exit_code).summary.outcome->0 },
        ),
        s.saw_structured && s.summary.outcome is Some ==> s.concluded(exit_code).summary
            == s.summary,
{
}

/// Finishing a stream twice is finishing it once.
pub proof fn law_finish_is_idempotent(
    s: ClaudeState,
    rest: Seq<u8>,
    exit_code: Option<i32>,
    rest_again: Seq<u8>,
    exit_code_again: Option<i32>,
)
    ensures
        s.ended(rest, exit_code).ended(rest_again, exit_code_again) == s.ended(rest, exit_code),
{
    let done = ClaudeState { finished: true, ..s };
    if let Some(value) = json::parsed_text(text::trimmed(crate::lines::last_line(rest))) {
        lemma_finished(done, value);
    }
}

proof fn lemma_finished(s: ClaudeState, value: JsonView)
    ensures
        s.on_record(value).finished == s.finished,
{
    reveal(ClaudeState::on_record);
    if let Some(blocks) = json::items_of(value.get2("message"@, "content"@)) {
        lemma_blocks(s, blocks, 0);
        lemma_result_blocks(s, blocks, 0);
    }
}

/// How often a session was announced.
pub open spec fn sessions_told(events: Seq<EventView>) -> nat
    decreases events.len(),
{
    if events.len() == 0 {
        0
    } else if events.last() is Session {
        sessions_told(events.drop_last()) + 1
    } else {
        sessions_told(events.drop_last())
    }
}

/// Whether the stream has announced its session at most once.
pub open spec fn announced_once(s: ClaudeState) -> bool {
    sessions_told(s.events) == if s.announced_session {
        1nat
    } else {
        0nat
    }
}

broadcast proof fn lemma_sessions(events: Seq<EventView>, event: EventView)
    ensures
        #[trigger] sessions_told(events.push(event)) == if event is Session {
            sessions_told(events) + 1
        } else {
            sessions_told(events)
        },
{
    assert(events.push(event).drop_last() == events);
}

proof fn lemma_blocks(s: ClaudeState, blocks: Seq<JsonView>, from: int)
    ensures
        announced_once(s) ==> announced_once(s.on_blocks(blocks, from)),
        s.on_blocks(blocks, from).finished == s.finished,
        s.saw_partial ==> s.on_blocks(blocks, from).summary.text == s.summary.text && s.on_blocks(
            blocks,
            from,
        ).summary.reasoning == s.summary.reasoning,
    decreases blocks.len() - from,
{
    broadcast use lemma_sessions;

    if 0 <= from < blocks.len() {
        lemma_blocks(s.on_block(blocks[from]), blocks, from + 1);
    }
}

proof fn lemma_result_blocks(s: ClaudeState, blocks: Seq<JsonView>, from: int)
    ensures
        announced_once(s) ==> announced_once(s.on_result_blocks(blocks, from)),
        s.on_result_blocks(blocks, from).finished == s.finished,
    decreases blocks.len() - from,
{
    broadcast use lemma_sessions;

    if 0 <= from < blocks.len() {
        lemma_result_blocks(s.on_result_block(blocks[from]), blocks, from + 1);
    }
}

/// The session is announced at most once, however many rows carry its id.
pub proof fn law_session_is_announced_once(s: ClaudeState, value: JsonView)
    requires
        announced_once(s),
    ensures
        announced_once(ClaudeState::start()),
        announced_once(s.on_record(value)),
{
    broadcast use lemma_sessions;

    reveal(ClaudeState::on_record);
    if let Some(blocks) = json::items_of(value.get2("message"@, "content"@)) {
        lemma_blocks(s, blocks, 0);
        lemma_result_blocks(s, blocks, 0);
    }
    assert(announced_once(s.on_system(value)));
    assert(announced_once(s.on_stream_event(value)));
    assert(announced_once(s.on_result(value)));
    assert(announced_once(s.on_error(value)));
}

/// Text that was streamed in pieces is not told again by the completed message.
pub proof fn law_streamed_text_is_not_repeated(s: ClaudeState, value: JsonView)
    requires
        s.saw_partial,
        value.text("type"@) == "assistant"@,
    ensures
        s.on_record(value).summary.text == s.summary.text,
        s.on_record(value).summary.reasoning == s.summary.reasoning,
{
    reveal(ClaudeState::on_record);
    reveal_strlit("assistant");
    reveal_strlit("system");
    reveal_strlit("stream_event");
    assert("assistant"@.len() == 9 && "system"@.len() == 6 && "stream_event"@.len() == 12);
    if let Some(blocks) = json::items_of(value.get2("message"@, "content"@)) {
        lemma_blocks(s, blocks, 0);
    }
}

/// Whether every call without a result stands in the summary where the stream
/// remembers it.
pub open spec fn calls_tracked(s: ClaudeState) -> bool {
    forall|id: Seq<char>| #[trigger]
        s.pending_tools.contains_key(id) ==> {
            let at = s.pending_tools[id] as int;
            0 <= at < s.summary.tool_calls.len() && s.summary.tool_calls[at].id == id
        }
}

/// A tool result completes the call with its id: that call's outcome and output
/// are the result's, every other call stays as it was.
pub proof fn law_result_completes_its_call(s: ClaudeState, block: JsonView)
    requires
        calls_tracked(s),
        s.summary.tool_calls.len() < usize::MAX,
        json::str_of(block.get("type"@)) == Some("tool_result"@),
    ensures
        calls_tracked(s.on_result_block(block)),
        ({
            let id = block.text("tool_use_id"@);
            let calls = s.summary.tool_calls;
            let after = s.on_result_block(block).summary.tool_calls;
            table::lookup(s.pending_tools, id) matches Some(at) ==> {
                &&& after.len() == calls.len()
                &&& after[at as int].id == id
                &&& after[at as int].output == block.get("content"@)
                &&& after[at as int].ok == (json::bool_of(block.get("is_error"@)) != Some(true))
                &&& forall|i: int| 0 <= i < calls.len() && i != at ==> after[i] == calls[i]
            }
        }),
{
}

/// A tool call is remembered under its id until its result comes.
pub proof fn law_call_is_tracked(s: ClaudeState, block: JsonView)
    requires
        calls_tracked(s),
        s.summary.tool_calls.len() < usize::MAX,
    ensures
        calls_tracked(ClaudeState::start()),
        calls_tracked(s.on_block(block)),
        block.text("type"@) == "tool_use"@ ==> s.on_block(block).pending_tools.contains_key(
            block.text("id"@),
        ),
{
    reveal_strlit("tool_use");
    reveal_strlit("text");
    reveal_strlit("thinking");
    assert("tool_use"@.len() == 8 && "text"@.len() == 4 && "thinking"@[1] == 'h' && "tool_use"@[1]
        == 'o');
}

/// The summary's usage is the sum of the usage events.
pub proof fn law_usage_adds_up(s: ClaudeState, value: JsonView)
    requires
        s.summary.usage == model::usage_told(s.events),
    ensures
        ClaudeState::start().summary.usage == model::usage_told(ClaudeState::start().events),
        s.on_record(value).summary.usage == model::usage_told(s.on_record(value).events),
{
    broadcast use crate::model::lemma_one_more_event;

    reveal(ClaudeState::on_record);
    if let Some(blocks) = json::items_of(value.get2("message"@, "content"@)) {
        lemma_block_usage(s, blocks, 0);
    }
    assert(s.on_system(value).summary.usage == model::usage_told(s.on_system(value).events));
    assert(s.on_stream_event(value).summary.usage == model::usage_told(
        s.on_stream_event(value).events,
    ));
    assert(s.on_result(value).summary.usage == model::usage_told(s.on_result(value).events));
    assert(s.on_error(value).summary.usage == model::usage_told(s.on_error(value).events));
}

proof fn lemma_block_usage(s: ClaudeState, blocks: Seq<JsonView>, from: int)
    requires
        s.summary.usage == model::usage_told(s.events),
    ensures
        s.on_blocks(blocks, from).summary.usage == model::usage_told(
            s.on_blocks(blocks, from).events,
        ),
        s.on_result_blocks(blocks, from).summary.usage == model::usage_told(
            s.on_result_blocks(blocks, from).events,
        ),
    decreases blocks.len() - from,
{
    broadcast use crate::model::lemma_one_more_event;

    if 0 <= from < blocks.len() {
        assert(s.on_block(blocks[from]).summary.usage == model::usage_told(
            s.on_block(blocks[from]).events,
        ));
        assert(s.on_result_block(blocks[from]).summary.usage == model::usage_told(
            s.on_result_block(blocks[from]).events,
        ));
        lemma_block_usage(s.on_block(blocks[from]), blocks, from + 1);
        lemma_block_usage(s.on_result_block(blocks[from]), blocks, from + 1);
    }
}

} // verus!
