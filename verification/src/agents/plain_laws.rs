//! What each row of an agent without a schema of its own tells.
use crate::agents::plain_jsonl;
use crate::agents::plain_jsonl::PlainState;
use crate::agents::terms;
use crate::json as tree;
use crate::json::JsonView;
use crate::lines;
use crate::model::{EventView, IdleOutcome, MessageRole, SummaryView, ToolCallView};
use crate::text;
use vstd::prelude::*;

verus! {

/// Whether a row is of this type.
pub open spec fn row(value: JsonView, kind: Seq<char>) -> bool {
    value is Object && terms::words(value.get("type"@)) == kind
}

/// Whether a row is of a type for tools.
pub open spec fn tool_row(value: JsonView) -> bool {
    row(value, "tool_use"@) || row(value, "tool_call"@) || row(value, "tool_result"@) || row(
        value,
        "tool"@,
    )
}

/// The state `s` once it has seen an object, and the session that it names; the first one
/// is told.
pub open spec fn met(s: PlainState, value: JsonView) -> PlainState {
    let k = PlainState { saw_structured: true, ..s };
    match (s.summary.session_id, s.probe) {
        (None, Some(key)) => match value.get(key) {
            Some(JsonView::Str(id)) => PlainState {
                summary: SummaryView { session_id: Some(id), ..s.summary },
                events: s.events.push(
                    EventView::Session { session_id: Some(id), title: None, model: None },
                ),
                ..k
            },
            _ => k,
        },
        _ => k,
    }
}

/// The first of two optional values that is there.
pub open spec fn first<T>(a: Option<T>, b: Option<T>) -> Option<T> {
    if a is Some {
        a
    } else {
        b
    }
}

/// The string under `key`.
pub open spec fn string(value: JsonView, key: Seq<char>) -> Option<Seq<char>> {
    match value.get(key) {
        Some(JsonView::Str(s)) => Some(s),
        _ => None,
    }
}

/// The id of the tool call that a row names: the first string among its names.
pub open spec fn call_id(value: JsonView) -> Seq<char> {
    match first(
        string(value, "id"@),
        first(
            string(value, "tool_use_id"@),
            first(
                string(value, "tool_call_id"@),
                first(string(value, "callID"@), string(value, "call_id"@)),
            ),
        ),
    ) {
        Some(id) => id,
        None => Seq::empty(),
    }
}

/// Whether a tool row reports that its call failed.
pub open spec fn botched(value: JsonView) -> bool {
    let status = terms::words(value.get("status"@));
    ||| terms::affirmed(value.get("is_error"@))
    ||| status == "error"@
    ||| status == "failed"@
    ||| status == "failure"@
    ||| (value.get("error"@) is Some && value.get("error"@) != Some(JsonView::Null) && value.get(
        "error"@,
    ) != Some(JsonView::Bool(false)))
}

/// The text of a row, in `text` or in `content`.
pub open spec fn piece(value: JsonView) -> Seq<char> {
    match first(string(value, "text"@), string(value, "content"@)) {
        Some(piece) => piece,
        None => Seq::empty(),
    }
}

/// Who wrote a row; the assistant where it does not say.
pub open spec fn writer(value: JsonView) -> MessageRole {
    let role = terms::words(value.get("role"@));
    if role == "system"@ {
        MessageRole::System
    } else if role == "user"@ {
        MessageRole::User
    } else if role == "tool"@ {
        MessageRole::Tool
    } else {
        MessageRole::Assistant
    }
}

proof fn lemma_id(value: JsonView)
    ensures
        plain_jsonl::text_or(
            plain_jsonl::first_text(value, plain_jsonl::tool_id_keys()),
            Seq::empty(),
        ) =~= call_id(value),
{
    reveal_with_fuel(tree::str_among, 7);
    let keys = plain_jsonl::tool_id_keys();
    assert(keys[0] == "id"@ && keys[1] == "tool_use_id"@ && keys[2] == "tool_call_id"@ && keys[3]
        == "callID"@ && keys[4] == "call_id"@);
}

proof fn lemma_failure(value: JsonView)
    ensures
        plain_jsonl::marks_failure(value) <==> botched(value),
{
    reveal_strlit("error");
    reveal_strlit("failed");
    reveal_strlit("failure");
    let status = value.get("status"@);
    if let Some(JsonView::Str(said)) = status {
        assert(tree::str_of(status) == Some(said));
    } else {
        assert(tree::str_of(status) is None);
        assert(terms::words(status).len() == 0);
    }
}

proof fn lemma_role(value: JsonView)
    ensures
        plain_jsonl::role_in(value) == writer(value),
{
    reveal_strlit("system");
    reveal_strlit("user");
    reveal_strlit("tool");
    assert("user"@[0] != "tool"@[0]);
    let role = value.get("role"@);
    if let Some(JsonView::Str(said)) = role {
        assert(tree::str_of(role) == Some(said));
    } else {
        assert(tree::str_of(role) is None);
        assert(terms::words(role).len() == 0);
    }
}

/// An error is told with its message, its error or its text, kept in the summary, and
/// makes the run fail.
pub proof fn law_error_is_told_and_kept(s: PlainState, value: JsonView)
    requires
        row(value, "error"@),
    ensures
        ({
            let k = met(s, value);
            let message = match first(
                string(value, "message"@),
                first(string(value, "error"@), string(value, "text"@)),
            ) {
                Some(message) => message,
                None => "agent error"@,
            };
            s.on_record(value) == PlainState {
                saw_error: true,
                summary: SummaryView { error: Some(message), ..k.summary },
                events: k.events.push(EventView::Error { message }),
                ..k
            }
        }),
{
    reveal(PlainState::on_record);
    let t = s.on_record(value);
    assert(value.text("type"@) == terms::words(value.get("type"@)));
    let k = met(s, value);
    assert(PlainState { saw_structured: true, ..s }.announce(value) == k);
    assert(t == k.on_error(value)) by {
        reveal_strlit("error");
        reveal_strlit("tool_use");
        reveal_strlit("tool_call");
        reveal_strlit("tool_result");
        reveal_strlit("tool");
    }
    reveal_with_fuel(tree::str_among, 5);
    let keys = seq!["message"@, "error"@, "text"@];
    assert(keys[0] == "message"@ && keys[1] == "error"@ && keys[2] == "text"@);
}

/// A tool's row tells its start and its end under its id and its name, or its type
/// where it has no name, well exactly where it reports no failure, and enters the
/// summary.
pub proof fn law_tool_is_told(s: PlainState, value: JsonView)
    requires
        tool_row(value),
    ensures
        ({
            let k = met(s, value);
            let id = call_id(value);
            let named = first(
                string(value, "name"@),
                first(string(value, "tool"@), string(value, "tool_name"@)),
            );
            let name = match named {
                Some(name) if name.len() > 0 => name,
                _ => terms::words(value.get("type"@)),
            };
            let input = match first(
                value.get("input"@),
                first(value.get("arguments"@), value.get("parameters"@)),
            ) {
                Some(input) => input,
                None => JsonView::Null,
            };
            let output = first(
                value.get("output"@),
                first(value.get("result"@), value.get("content"@)),
            );
            let ok = !botched(value);
            s.on_record(value) == PlainState {
                summary: SummaryView {
                    tool_calls: s.summary.tool_calls.push(ToolCallView { id, name, input, ok, output }),
                    ..k.summary
                },
                events: k.events.push(EventView::ToolStarted { id, name, input }).push(
                    EventView::ToolFinished { id, name, ok, output },
                ),
                ..k
            }
        }),
{
    reveal(PlainState::on_record);
    let t = s.on_record(value);
    assert(value.text("type"@) == terms::words(value.get("type"@)));
    let k = met(s, value);
    assert(PlainState { saw_structured: true, ..s }.announce(value) == k);
    assert(t == k.on_tool(value, terms::words(value.get("type"@)))) by {
        reveal_strlit("error");
        reveal_strlit("tool_use");
        reveal_strlit("tool_call");
        reveal_strlit("tool_result");
        reveal_strlit("tool");
    }
    lemma_id(value);
    lemma_failure(value);
    reveal_with_fuel(tree::str_among, 5);
    reveal_with_fuel(tree::value_among, 5);
    let names = plain_jsonl::tool_name_keys();
    assert(names[0] == "name"@ && names[1] == "tool"@ && names[2] == "tool_name"@);
    let ins = plain_jsonl::tool_input_keys();
    assert(ins[0] == "input"@ && ins[1] == "arguments"@ && ins[2] == "parameters"@);
    let outs = plain_jsonl::tool_output_keys();
    assert(outs[0] == "output"@ && outs[1] == "result"@ && outs[2] == "content"@);
}

/// A row with a text is told as a piece by its writer and added to the summary.
pub proof fn law_text_is_told(s: PlainState, value: JsonView)
    requires
        value is Object,
        !row(value, "error"@),
        !tool_row(value),
        piece(value).len() > 0,
    ensures
        ({
            let k = met(s, value);
            s.on_record(value) == PlainState {
                summary: SummaryView { text: s.summary.text + piece(value), ..k.summary },
                events: k.events.push(
                    EventView::TextDelta { role: writer(value), text: piece(value) },
                ),
                ..k
            }
        }),
{
    reveal(PlainState::on_record);
    let t = s.on_record(value);
    assert(value.text("type"@) == terms::words(value.get("type"@)));
    let k = met(s, value);
    assert(PlainState { saw_structured: true, ..s }.announce(value) == k);
    assert(t == k.on_row(terms::words(value.get("type"@)), value)) by {
        reveal_strlit("error");
        reveal_strlit("tool_use");
        reveal_strlit("tool_call");
        reveal_strlit("tool_result");
        reveal_strlit("tool");
    }
    lemma_role(value);
}

/// Any other row tells nothing and is kept whole in the summary, under its type, its
/// name or its role.
pub proof fn law_any_other_row_is_kept(s: PlainState, value: JsonView)
    requires
        value is Object,
        !row(value, "error"@),
        !tool_row(value),
        piece(value).len() == 0,
    ensures
        ({
            let k = met(s, value);
            let kind = terms::words(value.get("type"@));
            let called = first(string(value, "name"@), string(value, "role"@));
            let name = if kind.len() > 0 {
                kind
            } else {
                match called {
                    Some(name) if name.len() > 0 => name,
                    _ => "opaque"@,
                }
            };
            s.on_record(value) == PlainState {
                summary: SummaryView {
                    tool_calls: s.summary.tool_calls.push(
                        ToolCallView {
                            id: call_id(value),
                            name,
                            input: value,
                            ok: false,
                            output: None,
                        },
                    ),
                    ..k.summary
                },
                ..k
            }
        }),
{
    reveal(PlainState::on_record);
    let t = s.on_record(value);
    assert(value.text("type"@) == terms::words(value.get("type"@)));
    let k = met(s, value);
    assert(PlainState { saw_structured: true, ..s }.announce(value) == k);
    assert(t == k.on_row(terms::words(value.get("type"@)), value)) by {
        reveal_strlit("error");
        reveal_strlit("tool_use");
        reveal_strlit("tool_call");
        reveal_strlit("tool_result");
        reveal_strlit("tool");
    }
    lemma_id(value);
    reveal_with_fuel(tree::str_among, 4);
    let names = seq!["name"@, "role"@];
    assert(names[0] == "name"@ && names[1] == "role"@);
}

/// The end of a run with rows tells its outcome and puts it in the summary: a failure
/// after an error or a bad exit, and else a success. Output without rows has no
/// outcome.
pub proof fn law_end_tells_the_outcome(s: PlainState, rest: Seq<u8>, exit_code: Option<i32>)
    requires
        !s.finished,
        lines::last_line(rest).len() == 0,
    ensures
        ({
            let outcome = if s.saw_error || terms::failed_exit(exit_code) {
                IdleOutcome::Failed
            } else {
                IdleOutcome::Succeeded
            };
            s.ended(rest, exit_code) == if s.saw_structured {
                PlainState {
                    finished: true,
                    summary: SummaryView { outcome: Some(outcome), ..s.summary },
                    events: s.events.push(EventView::Idle { outcome }),
                    ..s
                }
            } else {
                PlainState { finished: true, ..s }
            }
        }),
{
}

/// A last line without its end is read as any other before the run ends.
pub proof fn law_last_line_is_read(s: PlainState, rest: Seq<u8>, none: Seq<u8>, exit_code: Option<i32>)
    requires
        !s.finished,
        lines::last_line(none).len() == 0,
    ensures
        s.ended(rest, exit_code) == (PlainState {
            finished: false,
            ..PlainState { finished: true, ..s }.on_line(lines::last_line(rest))
        }).ended(none, exit_code),
{
    reveal(PlainState::on_record);
}

/// A line is the row that it holds, whatever white space stands around it; one that
/// holds none changes nothing.
pub proof fn law_line_is_its_row(s: PlainState, line: Seq<char>)
    ensures
        s.on_line(line) == match tree::parsed_text(text::trimmed(line)) {
            Some(value) if text::trimmed(line).len() > 0 => s.on_record(value),
            _ => s,
        },
{
}

/// Once an error was told, no row makes the run succeed.
pub proof fn law_error_is_never_forgiven(s: PlainState, value: JsonView)
    requires
        s.saw_error,
    ensures
        s.on_record(value).saw_error,
{
    reveal(PlainState::on_record);
}

} // verus!
