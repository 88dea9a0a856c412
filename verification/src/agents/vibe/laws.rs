//! What holds of every Vibe stream.
use crate::agents::vibe::session_index::SessionStore;
use crate::agents::vibe::stream::VibeState;
use crate::json;
use crate::json::JsonView;
use crate::lines;
use crate::model;
use crate::model::IdleOutcome;
use crate::text;
use vstd::prelude::*;

verus! {

/// Noise is ignored: a line that is blank, no JSON, or JSON but no object
/// leaves everything as it was.
pub proof fn law_noise_changes_nothing(s: VibeState, line: Seq<char>)
    requires
        text::trimmed(line).len() == 0 || (json::parsed_text(text::trimmed(line)) matches Some(v)
            ==> !(v is Object)),
    ensures
        s.on_line(line) == s,
{
    reveal(VibeState::on_record);
}

proof fn lemma_finished(s: VibeState, value: JsonView)
    ensures
        s.on_record(value).finished == s.finished,
{
    reveal(VibeState::on_record);
    if let Some(calls) = json::items_of(value.get("tool_calls"@)) {
        let turned = s.on_turn(value);
        lemma_calls(
            turned.say(crate::agents::vibe::stream::plain_text(value.get("content"@))).think(
                value.text("reasoning_content"@),
            ),
            calls,
            0,
        );
    }
}

/// Finishing a stream twice is finishing it once.
pub proof fn law_finish_is_idempotent(
    s: VibeState,
    rest: Seq<u8>,
    exit_code: Option<i32>,
    store: Option<SessionStore>,
    rest_again: Seq<u8>,
    exit_code_again: Option<i32>,
    store_again: Option<SessionStore>,
)
    ensures
        s.ended(rest, exit_code, store).ended(rest_again, exit_code_again, store_again) == s.ended(
            rest,
            exit_code, store,
        ),
{
    let done = VibeState { finished: true, ..s };
    if let Some(value) = json::parsed_text(text::trimmed(lines::last_line(rest))) {
        lemma_finished(done, value);
    }
}

proof fn lemma_calls(s: VibeState, calls: Seq<JsonView>, from: int)
    ensures
        s.on_calls(calls, from).finished == s.finished,
        s.on_calls(calls, from).summary == s.summary,
        model::usage_told(s.on_calls(calls, from).events) == model::usage_told(s.events),
        model::text_told(s.on_calls(calls, from).events) == model::text_told(s.events),
        model::reasoning_told(s.on_calls(calls, from).events) == model::reasoning_told(s.events),
    decreases calls.len() - from,
{
    broadcast use crate::model::lemma_one_more_event;

    if 0 <= from < calls.len() {
        lemma_calls(s.on_call(calls[from]), calls, from + 1);
    }
}

/// Rows marked as injected are replays and change nothing.
pub proof fn law_injected_rows_are_skipped(s: VibeState, value: JsonView)
    requires
        json::bool_of(value.get("injected"@)) == Some(true),
    ensures
        s.on_record(value) == s,
{
    reveal(VibeState::on_record);
}

/// The begin of a turn is told once: a second row of the same turn tells nothing
/// of it.
pub proof fn law_turn_begins_once(s: VibeState, first: JsonView, second: JsonView)
    requires
        json::str_of(first.get("turnId"@)) is Some,
        json::str_of(second.get("turnId"@)) == json::str_of(first.get("turnId"@)),
    ensures
        s.on_turn(first).on_turn(second) == s.on_turn(first),
{
}

/// A stream that completed nothing and brought no result is not a success,
/// whatever the exit code; one without a single row has no outcome.
pub proof fn law_end(s: VibeState, exit_code: Option<i32>, store: Option<SessionStore>)
    ensures
        !s.saw_structured ==> s.concluded(exit_code, store) == s,
        s.saw_structured ==> s.concluded(exit_code, store).summary.outcome is Some,
        s.saw_structured && s.summary.outcome is None && !s.saw_completion ==> s.concluded(
            exit_code,
            store,
        ).summary.outcome != Some(IdleOutcome::Succeeded),
        s.summary.outcome is Some ==> s.concluded(exit_code, store).summary.outcome
            == s.summary.outcome,
{
}

/// The session store only fills gaps: an id, a title or a usage that the stream
/// gave stays.
pub proof fn law_store_only_fills_gaps(s: VibeState, store: Option<SessionStore>)
    ensures
        s.summary.session_id is Some ==> s.filled(store).summary.session_id
            == s.summary.session_id,
        s.summary.session_id is Some && s.summary.title is Some ==> s.filled(store).summary.title
            == s.summary.title,
        s.summary.usage != model::no_usage() ==> s.filled(store).summary.usage == s.summary.usage,
        s.filled(store).summary.text == s.summary.text,
        s.filled(store).summary.tool_calls == s.summary.tool_calls,
{
}

/// The summary's usage is the sum of the usage events, and its text and
/// reasoning are the streamed pieces, one behind the other.
pub proof fn law_summary_retells_the_stream(s: VibeState, value: JsonView)
    requires
        s.summary.usage == model::usage_told(s.events),
        model::retells(s.summary, s.events),
    ensures
        s.on_record(value).summary.usage == model::usage_told(s.on_record(value).events),
        model::retells(s.on_record(value).summary, s.on_record(value).events),
{
    broadcast use crate::model::lemma_one_more_event;

    reveal(VibeState::on_record);
    let turned = s.on_turn(value);
    lemma_message(turned, value);
    let rowed = turned.on_row(value.text("type"@), value);
    lemma_row(turned, value);
}

spec fn keeps_books(s: VibeState) -> bool {
    s.summary.usage == model::usage_told(s.events) && model::retells(s.summary, s.events)
}

proof fn lemma_message(s: VibeState, value: JsonView)
    requires
        keeps_books(s),
    ensures
        keeps_books(s.on_message(value)),
{
    broadcast use crate::model::lemma_one_more_event;

    if let Some(calls) = json::items_of(value.get("tool_calls"@)) {
        lemma_calls(
            s.say(crate::agents::vibe::stream::plain_text(value.get("content"@))).think(
                value.text("reasoning_content"@),
            ),
            calls,
            0,
        );
    }
}

proof fn lemma_row(s: VibeState, value: JsonView)
    requires
        keeps_books(s),
    ensures
        keeps_books(s.on_row(value.text("type"@), value)),
{
    broadcast use crate::model::lemma_one_more_event;

    lemma_message(s, value);
    assert(keeps_books(s.on_effect(value)));
    assert(keeps_books(s.on_step_finish(value)));
    assert(keeps_books(s.on_system(value)));
    assert(keeps_books(s.on_result(value)));
}

} // verus!
