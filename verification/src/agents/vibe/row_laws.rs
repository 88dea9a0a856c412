//! What each row of a Vibe stream tells.
use crate::agents::terms;
use crate::agents::vibe::session_index;
use crate::agents::vibe::session_index::SessionStore;
use crate::agents::vibe::stream;
use crate::agents::vibe::stream::VibeState;
use crate::json;
use crate::json::JsonView;
use crate::model;
use crate::model::{AgentUsage, EventView, IdleOutcome, MessageRole, SummaryView, ToolCallView};
use crate::text;
use vstd::prelude::*;

verus! {

/// Whether a row is one of the stream, and not a replay.
pub open spec fn live(value: JsonView) -> bool {
    value is Object && !terms::affirmed(value.get("injected"@))
}

/// Whether a row is a live one of this type.
pub open spec fn row(value: JsonView, kind: Seq<char>) -> bool {
    live(value) && terms::words(value.get("type"@)) == kind
}

/// Whether a type is none of those that a row can have.
pub open spec fn other_kind(kind: Seq<char>) -> bool {
    &&& kind != "message"@
    &&& kind != "reasoning"@
    &&& kind != "effect"@
    &&& kind != "text"@
    &&& kind != "tool_use"@
    &&& kind != "step_start"@
    &&& kind != "step_finish"@
    &&& kind != "error"@
    &&& kind != "system"@
    &&& kind != "result"@
}

/// Whether a row is a message of this role, with the type of one or in the shape of one.
pub open spec fn message(value: JsonView, role: Seq<char>) -> bool {
    &&& live(value)
    &&& terms::words(value.get("role"@)) == role
    &&& terms::words(value.get("type"@)) == "message"@ || other_kind(
        terms::words(value.get("type"@)),
    )
}

/// What a row tells of its turn: the begin of it, where its id is a new one.
pub open spec fn turn_told(s: VibeState, value: JsonView) -> Seq<EventView> {
    match value.get("turnId"@) {
        Some(JsonView::Str(id)) if s.last_turn_id != Some(id) => seq![EventView::TurnStarted],
        _ => Seq::empty(),
    }
}

/// The session's id once a row was read that does not set it otherwise.
pub open spec fn session_known(known: Option<Seq<char>>, value: JsonView) -> Option<Seq<char>> {
    match known {
        Some(id) => Some(id),
        None => terms::given(text::trimmed(terms::words(value.get("sessionId"@)))),
    }
}

/// What a row tells of its session: its id, where none was known.
pub open spec fn session_told(known: Option<Seq<char>>, value: JsonView) -> Seq<EventView> {
    match (known, session_known(known, value)) {
        (None, Some(id)) => seq![
            EventView::Session { session_id: Some(id), title: None, model: None },
        ],
        _ => Seq::empty(),
    }
}

/// Whether a row tells just `told` beside its turn and its session, in this order.
pub open spec fn tells(s: VibeState, value: JsonView, told: Seq<EventView>) -> bool {
    s.on_record(value).events =~= s.events + turn_told(s, value) + told + session_told(
        s.summary.session_id,
        value,
    )
}

/// Whether a row leaves the summary at `summary`, but for the session's id.
pub open spec fn leaves(s: VibeState, value: JsonView, summary: SummaryView) -> bool {
    s.on_record(value).summary == SummaryView {
        session_id: session_known(s.summary.session_id, value),
        ..summary
    }
}

/// Whether a row leaves these marks: that something was told, that something went wrong,
/// and that something was completed.
pub open spec fn marks(s: VibeState, value: JsonView, told: bool, wrong: bool, done: bool) -> bool {
    &&& s.on_record(value).saw_structured == (s.saw_structured || told)
    &&& s.on_record(value).saw_error == (s.saw_error || wrong)
    &&& s.on_record(value).saw_completion == (s.saw_completion || done)
}

/// The event that a piece of the answer is told by; none where it is empty.
pub open spec fn said(piece: Seq<char>) -> Seq<EventView> {
    if piece.len() == 0 {
        Seq::empty()
    } else {
        seq![EventView::TextDelta { role: MessageRole::Assistant, text: piece }]
    }
}

/// The event that a piece of the reasoning is told by; none where it is empty.
pub open spec fn thought(piece: Seq<char>) -> Seq<EventView> {
    if piece.len() == 0 {
        Seq::empty()
    } else {
        seq![EventView::ReasoningDelta { text: piece }]
    }
}

/// A row of text adds its text to the answer and tells it, unless it is empty.
pub proof fn law_text_is_told(s: VibeState, value: JsonView)
    requires
        row(value, "text"@),
    ensures
        tells(s, value, said(terms::words(value.get("text"@)))),
        leaves(s, value, (SummaryView { text: s.summary.text + terms::words(value.get("text"@)), ..s.summary })),
        marks(s, value, terms::words(value.get("text"@)).len() > 0, false, terms::words(value.get("text"@)).len() > 0),
{
    reveal_strlit("message");
    reveal_strlit("reasoning");
    reveal_strlit("effect");
    reveal_strlit("text");
    reveal_strlit("tool_use");
    reveal_strlit("step_start");
    reveal_strlit("step_finish");
    reveal_strlit("error");
    reveal_strlit("system");
    reveal_strlit("result");
    assert("effect"@[0] != "system"@[0]);
    assert("effect"@[0] != "result"@[0]);
    assert("system"@[0] != "result"@[0]);

    reveal(VibeState::on_record);
    let t = s.on_record(value);
    let kind = value.text("type"@);
    let turned = s.on_turn(value);
    assert(kind == terms::words(value.get("type"@)));
    assert(json::bool_of(value.get("injected"@)) != Some(true));
    assert(turned.events =~= s.events + turn_told(s, value));
    assert(t == turned.on_row(kind, value).on_session(value));
    assert(s.summary.text + Seq::<char>::empty() == s.summary.text);
}

/// A row of reasoning adds its text to the reasoning and tells it, unless it is empty;
/// alone it completes nothing.
pub proof fn law_reasoning_is_told(s: VibeState, value: JsonView)
    requires
        row(value, "reasoning"@),
    ensures
        tells(s, value, thought(terms::words(value.get("text"@)))),
        leaves(s, value, (SummaryView { reasoning: s.summary.reasoning + terms::words(value.get("text"@)), ..s.summary })),
        marks(s, value, terms::words(value.get("text"@)).len() > 0, false, false),
{
    reveal_strlit("message");
    reveal_strlit("reasoning");
    reveal_strlit("effect");
    reveal_strlit("text");
    reveal_strlit("tool_use");
    reveal_strlit("step_start");
    reveal_strlit("step_finish");
    reveal_strlit("error");
    reveal_strlit("system");
    reveal_strlit("result");
    assert("effect"@[0] != "system"@[0]);
    assert("effect"@[0] != "result"@[0]);
    assert("system"@[0] != "result"@[0]);

    reveal(VibeState::on_record);
    let t = s.on_record(value);
    let kind = value.text("type"@);
    let turned = s.on_turn(value);
    assert(kind == terms::words(value.get("type"@)));
    assert(json::bool_of(value.get("injected"@)) != Some(true));
    assert(turned.events =~= s.events + turn_told(s, value));
    assert(t == turned.on_row(kind, value).on_session(value));
    assert(s.summary.reasoning + Seq::<char>::empty() == s.summary.reasoning);
}

/// The content of a message is a text, or the texts of its parts one behind the other;
/// anything else is no content.
pub proof fn law_content_is_joined(parts: Seq<JsonView>, part: JsonView, text: Seq<char>)
    ensures
        stream::plain_text(Some(JsonView::Str(text))) == text,
        stream::plain_text(None).len() == 0,
        stream::plain_text(Some(JsonView::Null)).len() == 0,
        stream::plain_text(Some(JsonView::Array(Seq::empty()))).len() == 0,
        stream::plain_text(Some(JsonView::Array(parts.push(part)))) == stream::plain_text(Some(JsonView::Array(parts))) + terms::words(part.get("text"@)),
{
    lemma_parts(parts, part, 0);
}

proof fn lemma_parts(parts: Seq<JsonView>, part: JsonView, from: int)
    requires
        0 <= from <= parts.len(),
    ensures
        stream::parts_text(parts.push(part), from) == stream::parts_text(parts, from) + terms::words(part.get("text"@)),
    decreases parts.len() - from,
{
    let all = parts.push(part);
    if from < parts.len() {
        lemma_parts(parts, part, from + 1);
        assert(all[from] == parts[from]);
        assert(stream::parts_text(all, from) == parts[from].text("text"@) + stream::parts_text(all, from + 1));
        assert(stream::parts_text(parts, from) == parts[from].text("text"@) + stream::parts_text(parts, from + 1));
    } else {
        assert(all[from] == part);
        assert(stream::parts_text(all, from + 1) == Seq::<char>::empty());
    }
}

/// Whether `event` tells the begin of the tool call that `call` describes.
pub open spec fn begins(event: EventView, call: JsonView) -> bool {
    event matches EventView::ToolStarted { id, name, input } && {
        &&& id == terms::words(call.get("id"@))
        &&& name == terms::either(
            terms::words(terms::inside(call, "function"@, "name"@)),
            terms::words(call.get("name"@)),
        )
        &&& match terms::inside(call, "function"@, "arguments"@) {
            Some(JsonView::Str(written)) => match json::parsed_text(written) {
                Some(arguments) => input == arguments,
                None => input == JsonView::Str(written),
            },
            Some(arguments) => input == arguments,
            None => input == match call.get("input"@) {
                Some(input) => input,
                None => JsonView::Null,
            },
        }
    }
}

/// The tool calls that a message of an assistant makes.
pub open spec fn calls_in(value: JsonView) -> Seq<JsonView> {
    match value.get("tool_calls"@) {
        Some(JsonView::Array(calls)) => calls,
        _ => Seq::empty(),
    }
}

proof fn lemma_calls_told(s: VibeState, calls: Seq<JsonView>, from: int)
    requires
        0 <= from <= calls.len(),
    ensures
        ({
            let t = s.on_calls(calls, from);
            &&& t.events.len() == s.events.len() + calls.len() - from
            &&& t.events.take(s.events.len() as int) == s.events
            &&& forall|i: int|
                from <= i < calls.len() ==> begins(
                    t.events[s.events.len() + i - from],
                    #[trigger] calls[i],
                )
            &&& t.summary == s.summary
            &&& t.saw_error == s.saw_error
            &&& t.saw_structured == (s.saw_structured || from < calls.len())
            &&& t.saw_completion == (s.saw_completion || from < calls.len())
            &&& t.last_turn_id == s.last_turn_id
        }),
    decreases calls.len() - from,
{
    if from < calls.len() {
        let next = s.on_call(calls[from]);
        lemma_calls_told(next, calls, from + 1);
        let t = s.on_calls(calls, from);
        assert(begins(next.events.last(), calls[from]));
        assert(t.events[s.events.len() as int] == t.events.take(next.events.len() as int)[
            s.events.len() as int]);
        assert(t.events.take(s.events.len() as int) =~= t.events.take(
            next.events.len() as int,
        ).take(s.events.len() as int));
        assert(next.events.take(s.events.len() as int) =~= s.events);
    } else {
        assert(s.events.take(s.events.len() as int) =~= s.events);
    }
}

/// What a message of an assistant tells before its tool calls.
pub open spec fn answered(value: JsonView) -> Seq<EventView> {
    said(stream::plain_text(value.get("content"@))) + thought(
        terms::words(value.get("reasoning_content"@)),
    )
}

/// An assistant's message adds its content to the answer and its reasoning to the
/// reasoning, and begins each of its tool calls, in order.
pub proof fn law_assistant_answers(s: VibeState, value: JsonView)
    requires
        message(value, "assistant"@),
    ensures
        ({
            let t = s.on_record(value);
            let told = answered(value);
            let begun = s.events + turn_told(s, value) + told;
            let calls = calls_in(value);
            let session = session_told(s.summary.session_id, value);
            &&& t.events.len() == begun.len() + calls.len() + session.len()
            &&& t.events.take(begun.len() as int) == begun
            &&& t.events.skip((begun.len() + calls.len()) as int) == session
            &&& forall|i: int|
                0 <= i < calls.len() ==> begins(t.events[begun.len() + i], #[trigger] calls[i])
        }),
        leaves(
            s,
            value,
            (SummaryView {
                text: s.summary.text + stream::plain_text(value.get("content"@)),
                reasoning: s.summary.reasoning + terms::words(value.get("reasoning_content"@)),
                ..s.summary
            }),
        ),
        marks(
            s,
            value,
            answered(value).len() + calls_in(value).len() > 0,
            false,
            stream::plain_text(value.get("content"@)).len() + calls_in(value).len() > 0,
        ),
{
    reveal_strlit("message");
    reveal_strlit("reasoning");
    reveal_strlit("effect");
    reveal_strlit("text");
    reveal_strlit("tool_use");
    reveal_strlit("step_start");
    reveal_strlit("step_finish");
    reveal_strlit("error");
    reveal_strlit("system");
    reveal_strlit("result");
    reveal_strlit("assistant");
    reveal_strlit("tool");
    assert("reasoning"@[0] != "assistant"@[0]);
    assert("effect"@[0] != "system"@[0]);
    assert("effect"@[0] != "result"@[0]);
    assert("text"@[1] != "tool"@[1]);
    assert("system"@[0] != "result"@[0]);

    reveal(VibeState::on_record);
    let t = s.on_record(value);
    let kind = value.text("type"@);
    let turned = s.on_turn(value);
    assert(kind == terms::words(value.get("type"@)));
    assert(json::bool_of(value.get("injected"@)) != Some(true));
    assert(turned.events =~= s.events + turn_told(s, value));
    assert(t == turned.on_row(kind, value).on_session(value));

     let piece = stream::plain_text(value.get("content"@));
     let thinking = value.text("reasoning_content"@);
     let spoke = turned.say(piece).think(thinking);
     let begun = s.events + turn_told(s, value) + answered(value);
     assert(s.summary.text + Seq::<char>::empty() == s.summary.text);
     assert(s.summary.reasoning + Seq::<char>::empty() == s.summary.reasoning);
     assert(spoke.events =~= begun);
     let calls = calls_in(value);
     lemma_calls_told(spoke, calls, 0);
     let called = spoke.on_calls(calls, 0);
     assert(turned.on_row(value.text("type"@), value) == called);
     assert(t == called.on_session(value));
     assert(t.events =~= called.events + session_told(s.summary.session_id, value));
     assert(t.events.take(begun.len() as int) =~= called.events.take(begun.len() as int));
     assert(t.events.skip((begun.len() + calls.len()) as int) =~= session_told(s.summary.session_id, value));
     assert forall|i: int| 0 <= i < calls.len() implies begins(t.events[begun.len() + i], #[trigger] calls[i]) by {
         assert(t.events[begun.len() + i] == called.events[begun.len() + i]);
     }
}

/// A tool's message ends its call: under the name that the call began with, else under
/// its own, well unless it says otherwise, and with its content as output.
pub proof fn law_tool_message_ends_its_call(s: VibeState, value: JsonView)
    requires
        message(value, "tool"@),
    ensures
        ({
            let id = terms::words(value.get("tool_call_id"@));
            let name = if s.tool_names.contains_key(id) {
                s.tool_names[id]
            } else {
                terms::words(value.get("name"@))
            };
            let ok = !terms::affirmed(value.get("is_error"@)) && value.get("error"@) is None;
            let output = value.get("content"@);
            &&& tells(s, value, seq![EventView::ToolFinished { id, name, ok, output }])
            &&& leaves(
                s,
                value,
                (SummaryView {
                    tool_calls: s.summary.tool_calls.push(
                        ToolCallView { id, name, input: JsonView::Null, ok, output },
                    ),
                    ..s.summary
                }),
            )
            &&& marks(s, value, true, false, false)
        }),
{
    reveal_strlit("message");
    reveal_strlit("reasoning");
    reveal_strlit("effect");
    reveal_strlit("text");
    reveal_strlit("tool_use");
    reveal_strlit("step_start");
    reveal_strlit("step_finish");
    reveal_strlit("error");
    reveal_strlit("system");
    reveal_strlit("result");
    reveal_strlit("assistant");
    reveal_strlit("tool");
    assert("reasoning"@[0] != "assistant"@[0]);
    assert("effect"@[0] != "system"@[0]);
    assert("effect"@[0] != "result"@[0]);
    assert("text"@[1] != "tool"@[1]);
    assert("system"@[0] != "result"@[0]);

    reveal(VibeState::on_record);
    let t = s.on_record(value);
    let kind = value.text("type"@);
    let turned = s.on_turn(value);
    assert(kind == terms::words(value.get("type"@)));
    assert(json::bool_of(value.get("injected"@)) != Some(true));
    assert(turned.events =~= s.events + turn_told(s, value));
    assert(t == turned.on_row(kind, value).on_session(value));

    assert(turned.on_row(kind, value) == turned.on_message(value));
    assert(turned.tool_names == s.tool_names);
    let id = value.text("tool_call_id"@);
    let name = if s.tool_names.contains_key(id) { s.tool_names[id] } else { value.text("name"@) };
    let ok = !terms::affirmed(value.get("is_error"@)) && value.get("error"@) is None;
    assert(turned.on_message(value) == turned.end_tool(id, name, ok, value.get("content"@)));
}

/// A message of any other role, and a row of another type without a role, tells
/// nothing.
pub proof fn law_other_roles_are_silent(s: VibeState, value: JsonView)
    requires
        live(value),
        terms::words(value.get("type"@)) == "message"@ || other_kind(terms::words(value.get("type"@))),
        terms::words(value.get("role"@)) != "assistant"@,
        terms::words(value.get("role"@)) != "tool"@,
    ensures
        tells(s, value, Seq::empty()),
        leaves(s, value, s.summary),
        marks(s, value, false, false, false),
{
    reveal_strlit("message");
    reveal_strlit("reasoning");
    reveal_strlit("effect");
    reveal_strlit("text");
    reveal_strlit("tool_use");
    reveal_strlit("step_start");
    reveal_strlit("step_finish");
    reveal_strlit("error");
    reveal_strlit("system");
    reveal_strlit("result");
    reveal_strlit("assistant");
    reveal_strlit("tool");
    assert("reasoning"@[0] != "assistant"@[0]);
    assert("effect"@[0] != "system"@[0]);
    assert("effect"@[0] != "result"@[0]);
    assert("text"@[1] != "tool"@[1]);
    assert("system"@[0] != "result"@[0]);

    reveal(VibeState::on_record);
    let t = s.on_record(value);
    let kind = value.text("type"@);
    let turned = s.on_turn(value);
    assert(kind == terms::words(value.get("type"@)));
    assert(json::bool_of(value.get("injected"@)) != Some(true));
    assert(turned.events =~= s.events + turn_told(s, value));
    assert(t == turned.on_row(kind, value).on_session(value));
}

proof fn lemma_effect(s: VibeState, value: JsonView)
    ensures
        ({
            let id = terms::words(value.get("id"@));
            let name = terms::either(
                terms::words(terms::inside(value, "detail"@, "toolName"@)),
                terms::words(value.get("title"@)),
            );
            let input = match (
                terms::inside(value, "detail"@, "input"@),
                terms::inside(value, "detail"@, "display"@),
            ) {
                (Some(input), _) => input,
                (None, Some(display)) => display,
                (None, None) => JsonView::Null,
            };
            let status = terms::words(terms::inside(value, "state"@, "status"@));
            let good = status == "completed"@ || status == "success"@ || status == "succeeded"@;
            let bad = status == "failed"@ || status == "error"@;
            let ok = match terms::inside(value, "state"@, "display"@) {
                Some(display) => match display.get("success"@) {
                    Some(JsonView::Bool(success)) => success,
                    _ => good,
                },
                None => good,
            };
            let shown = terms::words(terms::inside(value, "state"@, "outputText"@));
            let output = if shown.len() > 0 {
                Some(JsonView::Str(shown))
            } else {
                terms::inside(value, "state"@, "output"@)
            };
            let begun = EventView::ToolStarted { id, name, input };
            &&& s.on_effect(value).tool_names == s.tool_names.insert(id, name)
            &&& s.on_effect(value).saw_structured
            &&& s.on_effect(value).saw_error == s.saw_error
            &&& if good || bad {
                &&& s.on_effect(value).events =~= s.events + seq![begun, EventView::ToolFinished { id, name, ok, output }]
                &&& s.on_effect(value).summary == (
                    (SummaryView {
                        tool_calls: s.summary.tool_calls.push(
                            ToolCallView { id, name, input: JsonView::Null, ok, output },
                        ),
                        ..s.summary
                    }))
                &&& s.on_effect(value).saw_completion
            } else {
                &&& s.on_effect(value).events =~= s.events + seq![begun]
                &&& s.on_effect(value).summary == s.summary
                &&& s.on_effect(value).saw_completion == s.saw_completion
            }
        }),
{
}

/// An effect begins its tool; once its state is a final one it ends it too, as its
/// display says and else by its state, with the text of the output where there is some.
pub proof fn law_effect_tells_its_tool(s: VibeState, value: JsonView)
    requires
        row(value, "effect"@),
    ensures
        ({
            let id = terms::words(value.get("id"@));
            let name = terms::either(
                terms::words(terms::inside(value, "detail"@, "toolName"@)),
                terms::words(value.get("title"@)),
            );
            let input = match (
                terms::inside(value, "detail"@, "input"@),
                terms::inside(value, "detail"@, "display"@),
            ) {
                (Some(input), _) => input,
                (None, Some(display)) => display,
                (None, None) => JsonView::Null,
            };
            let status = terms::words(terms::inside(value, "state"@, "status"@));
            let good = status == "completed"@ || status == "success"@ || status == "succeeded"@;
            let bad = status == "failed"@ || status == "error"@;
            let ok = match terms::inside(value, "state"@, "display"@) {
                Some(display) => match display.get("success"@) {
                    Some(JsonView::Bool(success)) => success,
                    _ => good,
                },
                None => good,
            };
            let shown = terms::words(terms::inside(value, "state"@, "outputText"@));
            let output = if shown.len() > 0 {
                Some(JsonView::Str(shown))
            } else {
                terms::inside(value, "state"@, "output"@)
            };
            let begun = EventView::ToolStarted { id, name, input };
            &&& s.on_record(value).tool_names == s.tool_names.insert(id, name)
            &&& if good || bad {
                &&& tells(s, value, seq![begun, EventView::ToolFinished { id, name, ok, output }])
                &&& leaves(
                    s,
                    value,
                    (SummaryView {
                        tool_calls: s.summary.tool_calls.push(
                            ToolCallView { id, name, input: JsonView::Null, ok, output },
                        ),
                        ..s.summary
                    }),
                )
                &&& marks(s, value, true, false, true)
            } else {
                &&& tells(s, value, seq![begun])
                &&& leaves(s, value, s.summary)
                &&& marks(s, value, true, false, false)
            }
        }),
{
    reveal(VibeState::on_record);
    let t = s.on_record(value);
    let kind = value.text("type"@);
    let turned = s.on_turn(value);
    assert(kind == terms::words(value.get("type"@)));
    assert(json::bool_of(value.get("injected"@)) != Some(true));
    assert(turned.events =~= s.events + turn_told(s, value));
    assert(t == turned.on_row(kind, value).on_session(value));

    assert(turned.on_row(kind, value) == turned.on_effect(value)) by {
        reveal_strlit("message");
        reveal_strlit("reasoning");
        reveal_strlit("effect");
        reveal_strlit("text");
        reveal_strlit("tool_use");
        reveal_strlit("step_start");
        reveal_strlit("step_finish");
        reveal_strlit("error");
        reveal_strlit("system");
        reveal_strlit("result");
        assert("effect"@[0] != "system"@[0]);
        assert("effect"@[0] != "result"@[0]);
        assert("system"@[0] != "result"@[0]);
    }
    let b = turned.on_effect(value);
    assert(t == b.on_session(value));
    assert(b.summary.session_id == s.summary.session_id);
    assert(t.events =~= b.events + session_told(s.summary.session_id, value));
    lemma_effect(turned, value);
}

/// A row of a tool's use begins the tool, and a later row under its id bears the tool's
/// name.
pub proof fn law_tool_use_begins_its_tool(s: VibeState, value: JsonView)
    requires
        row(value, "tool_use"@),
    ensures
        ({
            let id = terms::words(value.get("id"@));
            let name = terms::words(value.get("name"@));
            let input = match value.get("input"@) {
                Some(input) => input,
                None => JsonView::Null,
            };
            &&& tells(s, value, seq![EventView::ToolStarted { id, name, input }])
            &&& leaves(s, value, s.summary)
            &&& marks(s, value, true, false, true)
            &&& s.on_record(value).tool_names == s.tool_names.insert(id, name)
        }),
{
    reveal_strlit("message");
    reveal_strlit("reasoning");
    reveal_strlit("effect");
    reveal_strlit("text");
    reveal_strlit("tool_use");
    reveal_strlit("step_start");
    reveal_strlit("step_finish");
    reveal_strlit("error");
    reveal_strlit("system");
    reveal_strlit("result");
    assert("effect"@[0] != "system"@[0]);
    assert("effect"@[0] != "result"@[0]);
    assert("system"@[0] != "result"@[0]);

    reveal(VibeState::on_record);
    let t = s.on_record(value);
    let kind = value.text("type"@);
    let turned = s.on_turn(value);
    assert(kind == terms::words(value.get("type"@)));
    assert(json::bool_of(value.get("injected"@)) != Some(true));
    assert(turned.events =~= s.events + turn_told(s, value));
    assert(t == turned.on_row(kind, value).on_session(value));
}

/// The begin of a step is told as that of a turn.
pub proof fn law_step_begins_a_turn(s: VibeState, value: JsonView)
    requires
        row(value, "step_start"@),
    ensures
        tells(s, value, seq![EventView::TurnStarted]),
        leaves(s, value, s.summary),
        marks(s, value, true, false, false),
{
    reveal_strlit("message");
    reveal_strlit("reasoning");
    reveal_strlit("effect");
    reveal_strlit("text");
    reveal_strlit("tool_use");
    reveal_strlit("step_start");
    reveal_strlit("step_finish");
    reveal_strlit("error");
    reveal_strlit("system");
    reveal_strlit("result");
    assert("effect"@[0] != "system"@[0]);
    assert("effect"@[0] != "result"@[0]);
    assert("system"@[0] != "result"@[0]);

    reveal(VibeState::on_record);
    let t = s.on_record(value);
    let kind = value.text("type"@);
    let turned = s.on_turn(value);
    assert(kind == terms::words(value.get("type"@)));
    assert(json::bool_of(value.get("injected"@)) != Some(true));
    assert(turned.events =~= s.events + turn_told(s, value));
    assert(t == turned.on_row(kind, value).on_session(value));
}

/// The usage that the end of a step reports.
pub open spec fn step_spent(value: JsonView) -> AgentUsage {
    let tokens = match terms::inside(value, "part"@, "tokens"@) {
        Some(tokens) => tokens,
        None => JsonView::Null,
    };
    AgentUsage {
        input_tokens: terms::first_number(tokens.get("input"@), tokens.get("prompt"@)),
        output_tokens: terms::first_number(tokens.get("output"@), tokens.get("completion"@)),
        reasoning_tokens: terms::tally(tokens.get("reasoning"@)),
        cache_read_tokens: terms::first_number(
            terms::inside(tokens, "cache"@, "read"@),
            tokens.get("cached"@),
        ),
        cache_write_tokens: terms::tally(terms::inside(tokens, "cache"@, "write"@)),
        cost_usd: match (
            terms::dollars(terms::inside(value, "part"@, "cost"@)),
            terms::dollars(value.get("cost"@)),
        ) {
            (Some(cost), _) => Some(cost),
            (None, cost) => cost,
        },
    }
}

/// The usage that a final row reports.
pub open spec fn run_spent(value: JsonView) -> AgentUsage {
    let usage = match value.get("usage"@) {
        Some(usage) => usage,
        None => JsonView::Null,
    };
    AgentUsage {
        input_tokens: terms::first_number(usage.get("input_tokens"@), usage.get("prompt_tokens"@)),
        output_tokens: terms::first_number(
            usage.get("output_tokens"@),
            usage.get("completion_tokens"@),
        ),
        reasoning_tokens: terms::tally(usage.get("reasoning_tokens"@)),
        cache_read_tokens: match terms::number(usage.get("cache_read_tokens"@)) {
            Some(n) => n,
            None => terms::first_number(
                usage.get("cache_read_input_tokens"@),
                usage.get("cached_tokens"@),
            ),
        },
        cache_write_tokens: terms::first_number(
            usage.get("cache_write_tokens"@),
            usage.get("cache_creation_input_tokens"@),
        ),
        cost_usd: match (
            terms::dollars(value.get("total_cost_usd"@)),
            terms::dollars(value.get("cost_usd"@)),
            terms::dollars(usage.get("cost_usd"@)),
        ) {
            (Some(cost), _, _) => Some(cost),
            (None, Some(cost), _) => Some(cost),
            (None, None, cost) => cost,
        },
    }
}

/// The end of a step that reports some usage adds it to the summary and tells it; one
/// that reports none tells nothing.
pub proof fn law_step_is_accounted(s: VibeState, value: JsonView)
    requires
        row(value, "step_finish"@),
    ensures
        ({
            let spent = step_spent(value);
            if spent == model::no_usage() {
                tells(s, value, Seq::empty()) && leaves(s, value, s.summary) && marks(
                    s,
                    value,
                    false,
                    false,
                    false,
                )
            } else {
                &&& tells(s, value, seq![EventView::Usage { usage: spent }])
                &&& leaves(
                    s,
                    value,
                    (SummaryView { usage: s.summary.usage.merged(spent), ..s.summary }),
                )
                &&& marks(s, value, true, false, false)
            }
        }),
{
    reveal_strlit("message");
    reveal_strlit("reasoning");
    reveal_strlit("effect");
    reveal_strlit("text");
    reveal_strlit("tool_use");
    reveal_strlit("step_start");
    reveal_strlit("step_finish");
    reveal_strlit("error");
    reveal_strlit("system");
    reveal_strlit("result");
    assert("effect"@[0] != "system"@[0]);
    assert("effect"@[0] != "result"@[0]);
    assert("system"@[0] != "result"@[0]);

    reveal(VibeState::on_record);
    let t = s.on_record(value);
    let kind = value.text("type"@);
    let turned = s.on_turn(value);
    assert(kind == terms::words(value.get("type"@)));
    assert(json::bool_of(value.get("injected"@)) != Some(true));
    assert(turned.events =~= s.events + turn_told(s, value));
    assert(t == turned.on_row(kind, value).on_session(value));
    assert(stream::step_usage(value) == step_spent(value));
}

/// An error row tells its message, puts it in the summary, and marks the run as one
/// that went wrong.
pub proof fn law_error_is_told(s: VibeState, value: JsonView)
    requires
        row(value, "error"@),
    ensures
        ({
            let message = terms::either(
                terms::words(terms::inside(value, "error"@, "message"@)),
                terms::either(terms::words(value.get("message"@)), "agent error"@),
            );
            &&& tells(s, value, seq![EventView::Error { message }])
            &&& leaves(s, value, (SummaryView { error: Some(message), ..s.summary }))
            &&& marks(s, value, true, true, false)
        }),
{
    reveal_strlit("message");
    reveal_strlit("reasoning");
    reveal_strlit("effect");
    reveal_strlit("text");
    reveal_strlit("tool_use");
    reveal_strlit("step_start");
    reveal_strlit("step_finish");
    reveal_strlit("error");
    reveal_strlit("system");
    reveal_strlit("result");
    assert("effect"@[0] != "system"@[0]);
    assert("effect"@[0] != "result"@[0]);
    assert("system"@[0] != "result"@[0]);

    reveal(VibeState::on_record);
    let t = s.on_record(value);
    let kind = value.text("type"@);
    let turned = s.on_turn(value);
    assert(kind == terms::words(value.get("type"@)));
    assert(json::bool_of(value.get("injected"@)) != Some(true));
    assert(turned.events =~= s.events + turn_told(s, value));
    assert(t == turned.on_row(kind, value).on_session(value));
}

/// The header of a stream tells its session and its model; another row of the system
/// tells nothing.
pub proof fn law_header_tells_its_session(s: VibeState, value: JsonView)
    requires
        row(value, "system"@),
    ensures
        ({
            let t = s.on_record(value);
            let model = terms::given(
                terms::either(terms::words(value.get("model"@)), terms::words(value.get("model_name"@))),
            );
            let id = terms::given(
                terms::either(terms::words(value.get("sessionId"@)), terms::words(value.get("session_id"@))),
            );
            let known = match s.summary.session_id {
                Some(known) => Some(known),
                None => id,
            };
            if terms::words(value.get("subtype"@)) == "init"@ {
                &&& t.events =~= s.events + turn_told(s, value) + seq![
                    EventView::Session { session_id: id, title: None, model },
                ] + session_told(known, value)
                &&& t.summary == SummaryView {
                    session_id: session_known(known, value),
                    ..s.summary
                }
                &&& marks(s, value, true, false, false)
            } else {
                &&& tells(s, value, Seq::empty())
                &&& leaves(s, value, s.summary)
                &&& marks(s, value, false, false, false)
            }
        }),
{
    reveal(VibeState::on_record);
    let t = s.on_record(value);
    let kind = value.text("type"@);
    let turned = s.on_turn(value);
    assert(kind == terms::words(value.get("type"@)));
    assert(json::bool_of(value.get("injected"@)) != Some(true));
    assert(turned.events =~= s.events + turn_told(s, value));
    assert(t == turned.on_row(kind, value).on_session(value));

    assert(turned.on_row(kind, value) == turned.on_system(value)) by {
        reveal_strlit("message");
        reveal_strlit("reasoning");
        reveal_strlit("effect");
        reveal_strlit("text");
        reveal_strlit("tool_use");
        reveal_strlit("step_start");
        reveal_strlit("step_finish");
        reveal_strlit("error");
        reveal_strlit("system");
        reveal_strlit("result");
        assert("effect"@[0] != "system"@[0]);
        assert("effect"@[0] != "result"@[0]);
        assert("system"@[0] != "result"@[0]);
    }
    let b = turned.on_system(value);
    if terms::words(value.get("subtype"@)) == "init"@ {
        let id = terms::given(
            terms::either(terms::words(value.get("sessionId"@)), terms::words(value.get("session_id"@))),
        );
        let known = match s.summary.session_id {
            Some(known) => Some(known),
            None => id,
        };
        assert(b.summary.session_id == known);
        assert(t.events =~= b.events + session_told(known, value));
    } else {
        assert(b == turned);
    }
}

/// A result row decides the run: it failed just where the row says that it is an error,
/// and then the row's error, or else its subtype, is told. The outcome is told last of
/// the row, behind its usage.
pub proof fn law_result_decides_the_outcome(s: VibeState, value: JsonView)
    requires
        row(value, "result"@),
    ensures
        ({
            let spent = run_spent(value);
            let wrong = terms::affirmed(value.get("is_error"@));
            let message = terms::either(
                terms::words(value.get("error"@)),
                terms::words(value.get("subtype"@)),
            );
            let outcome = if wrong {
                IdleOutcome::Failed
            } else {
                IdleOutcome::Succeeded
            };
            let told = seq![EventView::Usage { usage: spent }] + (if wrong && message.len() > 0 {
                seq![EventView::Error { message }]
            } else {
                Seq::empty()
            }) + seq![EventView::Idle { outcome }];
            &&& tells(s, value, told)
            &&& leaves(
                s,
                value,
                (SummaryView {
                    usage: s.summary.usage.merged(spent),
                    error: if wrong && message.len() > 0 {
                        Some(message)
                    } else {
                        s.summary.error
                    },
                    outcome: Some(outcome),
                    ..s.summary
                }),
            )
            &&& marks(s, value, true, wrong, true)
        }),
{
    reveal(VibeState::on_record);
    let t = s.on_record(value);
    let kind = value.text("type"@);
    let turned = s.on_turn(value);
    assert(kind == terms::words(value.get("type"@)));
    assert(json::bool_of(value.get("injected"@)) != Some(true));
    assert(turned.events =~= s.events + turn_told(s, value));
    assert(t == turned.on_row(kind, value).on_session(value));

    assert(turned.on_row(kind, value) == turned.on_result(value)) by {
        reveal_strlit("message");
        reveal_strlit("reasoning");
        reveal_strlit("effect");
        reveal_strlit("text");
        reveal_strlit("tool_use");
        reveal_strlit("step_start");
        reveal_strlit("step_finish");
        reveal_strlit("error");
        reveal_strlit("system");
        reveal_strlit("result");
        assert("effect"@[0] != "system"@[0]);
        assert("effect"@[0] != "result"@[0]);
        assert("system"@[0] != "result"@[0]);
    }
    assert(stream::result_usage(value) == run_spent(value));
    let b = turned.on_result(value);
    assert(b.summary.session_id == s.summary.session_id);
    assert(t.events =~= b.events + session_told(s.summary.session_id, value));
}

/// The end of the stream keeps an outcome that a result row gave. Without one, a run
/// with an error or a bad exit failed, one that completed something succeeded, and any
/// other was interrupted; a stream without a row has none.
pub proof fn law_a_reported_outcome_stands(s: VibeState, exit_code: Option<i32>, store: Option<SessionStore>)
    ensures
        ({
            let t = s.concluded(exit_code, store);
            let outcome = if s.saw_error || terms::failed_exit(exit_code) {
                IdleOutcome::Failed
            } else if s.saw_completion {
                IdleOutcome::Succeeded
            } else {
                IdleOutcome::Interrupted
            };
            if !s.saw_structured || s.summary.outcome is Some {
                t.summary.outcome == s.summary.outcome
            } else {
                &&& t.summary.outcome == Some(outcome)
                &&& t.events.last() == (EventView::Idle { outcome })
            }
        }),
        !s.saw_structured ==> s.concluded(exit_code, store) == s,
        s.saw_structured && s.summary.outcome is Some ==> s.concluded(exit_code, store) == s.filled(
            store,
        ),
        s.saw_structured && s.summary.outcome is None ==> {
            let t = s.concluded(exit_code, store);
            let whole = s.filled(store);
            &&& t.events.drop_last() =~= whole.events
            &&& t.summary == SummaryView { outcome: t.summary.outcome, ..whole.summary }
        },
        s.index is None ==> s.filled(store) == s,
        s.filled(None) == s,
{
    if s.saw_structured && s.summary.outcome is None {
        let t = s.concluded(exit_code, store);
        assert(t.events.drop_last() =~= s.filled(store).events);
    }
}

/// A line that the stream ends in without a line feed is read like any other, before
/// the run is judged.
pub proof fn law_last_line_is_read(s: VibeState, rest: Seq<u8>, exit_code: Option<i32>, store: Option<SessionStore>)
    requires
        !s.finished,
    ensures
        ({
            let tail = text::trimmed(crate::lines::lossy_text(rest));
            let read = (VibeState { finished: true, ..s }).on_line(tail);
            s.ended(rest, exit_code, store) == read.concluded(exit_code, store)
        }),
{
    let tail = text::trimmed(crate::lines::lossy_text(rest));
    if tail.len() == 0 {
        assert(text::trimmed(tail).len() == 0);
    }
}

/// From the session store a run without a session takes the recent one of its
/// directory, with its title; a run with a session takes that session's title and
/// usage, where it has none.
pub proof fn law_store_fills_what_is_missing(s: VibeState, store: SessionStore, cwd: Seq<char>, since: model::Moment)
    requires
        s.index == Some((cwd, since)),
    ensures
        ({
            let t = s.filled(Some(store));
            match s.summary.session_id {
                None => match session_index::recent_session(store, cwd, since) {
                    Some(found) => {
                        &&& t.summary.session_id == Some(found.id)
                        &&& t.summary.title == found.title
                        &&& t.events == s.events.push(
                            EventView::Session {
                                session_id: Some(found.id),
                                title: found.title,
                                model: None,
                            },
                        )
                    },
                    None => t == s,
                },
                Some(id) => {
                    let title = match session_index::session_in(store, id) {
                        Some(found) => found.title,
                        None => None,
                    };
                    let usage = match session_index::session_meta(store, id) {
                        Some(meta) => session_index::meta_usage(meta),
                        None => None,
                    };
                    let new_title = s.summary.title is None && title is Some;
                    let new_usage = s.summary.usage == model::no_usage() && usage is Some;
                    &&& t.summary.title == if new_title {
                        title
                    } else {
                        s.summary.title
                    }
                    &&& t.summary.usage == if new_usage {
                        s.summary.usage.merged(usage->0)
                    } else {
                        s.summary.usage
                    }
                    &&& t.events == s.events + (if new_title {
                        seq![EventView::Title { title: title->0 }]
                    } else {
                        Seq::empty()
                    }) + (if new_usage {
                        seq![EventView::Usage { usage: usage->0 }]
                    } else {
                        Seq::empty()
                    })
                },
            }
        }),
        s.filled(None) == s,
{
}

} // verus!
