//! What holds of every `opencode run` stream.
use crate::agents::opencode::json::OpenCodeState;
use crate::json;
use crate::json::JsonView;
use crate::lines;
use crate::model;
use crate::model::{EventView, IdleOutcome};
use crate::text;
use vstd::prelude::*;

verus! {

/// Noise is ignored: a line that is blank, no JSON, or JSON but no object
/// leaves everything as it was.
pub proof fn law_noise_changes_nothing(s: OpenCodeState, line: Seq<char>)
    requires
        text::trimmed(line).len() == 0 || (json::parsed_text(text::trimmed(line)) matches Some(v)
            ==> !(v is Object)),
    ensures
        s.on_line(line) == s,
{
    reveal(OpenCodeState::on_record);
}

proof fn lemma_finished(s: OpenCodeState, value: JsonView)
    ensures
        s.on_record(value).finished == s.finished,
{
    reveal(OpenCodeState::on_record);
}

/// Finishing a stream twice is finishing it once.
pub proof fn law_finish_is_idempotent(
    s: OpenCodeState,
    rest: Seq<u8>,
    exit_code: Option<i32>,
    rest_again: Seq<u8>,
    exit_code_again: Option<i32>,
)
    ensures
        s.ended(rest, exit_code).ended(rest_again, exit_code_again) == s.ended(
            rest,
            exit_code,
        ),
{
    let done = OpenCodeState { finished: true, ..s };
    if let Some(value) = json::parsed_text(text::trimmed(lines::last_line(rest))) {
        lemma_finished(done, value);
    }
}

/// A stream without a final step is not a success, whatever the exit code; one
/// without a single row has no outcome; the end of any other is told once, last.
pub proof fn law_end(s: OpenCodeState, exit_code: Option<i32>)
    ensures
        !s.saw_structured ==> s.concluded(exit_code) == s,
        s.saw_structured && !s.saw_final_step ==> s.concluded(exit_code).summary.outcome != Some(
            IdleOutcome::Succeeded,
        ),
        s.saw_structured ==> s.concluded(exit_code).events == s.events.push(
            EventView::Idle { outcome: s.concluded(exit_code).summary.outcome->0 },
        ),
{
}

/// The summary's usage is the sum of the usage events, and its text and
/// reasoning are the streamed pieces, one behind the other.
pub proof fn law_summary_retells_the_stream(s: OpenCodeState, value: JsonView)
    requires
        s.summary.usage == model::usage_told(s.events),
        model::retells(s.summary, s.events),
    ensures
        s.on_record(value).summary.usage == model::usage_told(s.on_record(value).events),
        model::retells(s.on_record(value).summary, s.on_record(value).events),
{
    broadcast use crate::model::lemma_one_more_event;

    reveal(OpenCodeState::on_record);
}

/// The session's id, once it is known, does not change.
pub proof fn law_session_is_kept(s: OpenCodeState, value: JsonView)
    requires
        s.summary.session_id is Some,
    ensures
        s.on_record(value).summary.session_id == s.summary.session_id,
{
    reveal(OpenCodeState::on_record);
}

} // verus!
