//! What holds of every pi stream.
use crate::agents::pi::json;
use crate::agents::pi::json::{PiJsonlParser, PiState};
use crate::json::JsonView;
use crate::lines;
use crate::model;
use crate::model::{AgentUsage, EventView, IdleOutcome};
use crate::text;
use vstd::prelude::*;

verus! {

/// Whether two usages agree in every counter.
pub open spec fn same_counters(a: AgentUsage, b: AgentUsage) -> bool {
    &&& a.input_tokens == b.input_tokens
    &&& a.output_tokens == b.output_tokens
    &&& a.reasoning_tokens == b.reasoning_tokens
    &&& a.cache_read_tokens == b.cache_read_tokens
    &&& a.cache_write_tokens == b.cache_write_tokens
}

/// Whether the books of a stream balance: the usage events add up to the
/// summary's counters, and held totals lack nothing that was counted.
pub open spec fn balanced(s: PiState) -> bool {
    &&& same_counters(model::usage_told(s.events), s.emitted_usage)
    &&& same_counters(s.summary.usage, s.emitted_usage)
    &&& s.question matches Some(total) ==> json::counters_cover(total, s.emitted_usage)
}

proof fn lemma_spend(s: PiState, usage: AgentUsage)
    requires
        balanced(s),
        s.question is None,
    ensures
        balanced(s.spend(usage)),
{
    model::lemma_one_more_event(s.events, EventView::Usage { usage });
}

proof fn lemma_header(s: PiState, value: JsonView)
    requires
        balanced(s),
        s.question is None,
    ensures
        balanced(s.on_header(value)),
{
    broadcast use crate::model::lemma_one_more_event;

}

proof fn lemma_identity(s: PiState, value: JsonView)
    requires
        balanced(s),
        s.question is None,
    ensures
        balanced(s.on_identity(value)),
{
    broadcast use crate::model::lemma_one_more_event;

}

proof fn lemma_stats(s: PiState, data: Option<JsonView>)
    requires
        balanced(s),
        s.question is None,
    ensures
        balanced(s.on_stats(data)),
{
    broadcast use crate::model::lemma_one_more_event;

}

proof fn lemma_update(s: PiState, value: JsonView)
    requires
        balanced(s),
        s.question is None,
    ensures
        balanced(s.on_update(value)),
{
    broadcast use crate::model::lemma_one_more_event;

}

proof fn lemma_tool_end(s: PiState, value: JsonView)
    requires
        balanced(s),
        s.question is None,
    ensures
        balanced(s.on_tool_end(value)),
{
    broadcast use crate::model::lemma_one_more_event;

}

proof fn lemma_dialog(s: PiState, value: JsonView)
    requires
        balanced(s),
        s.question is None,
    ensures
        balanced(s.on_dialog(value)),
{
    broadcast use crate::model::lemma_one_more_event;

}

proof fn lemma_settled(s: PiState)
    requires
        balanced(s),
        s.question is None,
    ensures
        balanced(s.on_settled()),
{
    broadcast use crate::model::lemma_one_more_event;

}

proof fn lemma_message_end(s: PiState, value: JsonView)
    requires
        balanced(s),
        s.question is None,
    ensures
        balanced(s.on_message_end(value)),
        balanced(s.on_compaction(value)),
{
    if let Some(usage) = value.get2("message"@, "usage"@) {
        lemma_spend(s, json::usage_in(usage));
    }
    if let Some(usage) = value.get2("result"@, "usage"@) {
        lemma_spend(s, json::usage_in(usage));
    }
}

proof fn lemma_turn_end(s: PiState, value: JsonView)
    requires
        balanced(s),
        s.question is None,
    ensures
        balanced(s.on_turn_end(value)),
{
    let free = PiState { last_usage: None, ..s };
    if let Some(usage) = value.get2("message"@, "usage"@) {
        lemma_spend(free, json::usage_in(usage));
    }
    if let Some(usage) = s.last_usage {
        lemma_spend(free, usage);
    }
}

/// Counted usage never drifts: whatever record arrives, the usage events so far
/// add up to the counters of the summary.
pub proof fn law_record_keeps_balance(s: PiState, value: JsonView)
    requires
        balanced(s),
        s.question is None,
    ensures
        balanced(s.on_record(value)),
{
    reveal(PiState::on_record);
    lemma_header(s, value);
    lemma_response(s, value);
    lemma_update(s, value);
    lemma_message_end(s, value);
    lemma_tool_end(s, value);
    lemma_dialog(s, value);
    lemma_turn_end(s, value);
    lemma_settled(s);
    lemma_told_plainly(s);
}

proof fn lemma_response(s: PiState, value: JsonView)
    requires
        balanced(s),
        s.question is None,
    ensures
        balanced(s.on_response(value)),
{
    lemma_identity(s, value);
    lemma_stats(s, value.get("data"@));
}

/// Events that are no usage do not touch the books.
proof fn lemma_told_plainly(s: PiState)
    requires
        balanced(s),
    ensures
        forall|e: EventView| !(e is Usage) ==> balanced(#[trigger] s.emit(e)),
        forall|m: Seq<char>| balanced(#[trigger] s.fail(m)),
{
    assert forall|e: EventView| !(e is Usage) implies balanced(#[trigger] s.emit(e)) by {
        model::lemma_one_more_event(s.events, e);
    }
    assert forall|m: Seq<char>| balanced(#[trigger] s.fail(m)) by {
        model::lemma_one_more_event(s.events, EventView::Error { message: m });
    }
}

/// Session totals are reconciled without counting twice: once they are taken,
/// the usage events add up to exactly these totals; refused totals change
/// nothing that was told.
pub proof fn law_totals_are_met(s: PiState, cost_covers: bool)
    requires
        balanced(s),
    ensures
        balanced(s.judged(cost_covers)),
        s.question is Some && cost_covers ==> same_counters(
            model::usage_told(s.judged(cost_covers).events),
            s.question->0,
        ),
        !cost_covers ==> s.judged(cost_covers).events == s.events && s.judged(
            cost_covers,
        ).summary == s.summary,
{
    broadcast use crate::model::lemma_one_more_event;

    if let Some(total) = s.question {
        let new = json::delta(total, s.emitted_usage);
        assert(same_counters(model::usage_told(s.events).merged(new), total));
    }
}

/// The books balance at the end of a stream too.
pub proof fn law_end_keeps_balance(s: PiState, exit_code: Option<i32>)
    requires
        balanced(s),
        s.question is None,
    ensures
        balanced(s.concluded(exit_code)),
{
    broadcast use crate::model::lemma_one_more_event;

    if let Some(usage) = s.last_usage {
        lemma_spend(PiState { last_usage: None, ..s }, usage);
    }
}

/// From the first byte on, however long the stream: the usage events add up to
/// the counters of the summary.
pub proof fn law_stream_keeps_balance(s: PiState, bytes: Seq<u8>)
    requires
        balanced(s),
    ensures
        balanced(PiState::start(true)),
        balanced(PiState::start(false)),
        balanced(lines::read_lines::<PiJsonlParser>(s, bytes).0),
    decreases bytes.len(),
{
    lines::lemma_feed_bounds(bytes);
    if s.question is None && lines::has_line(bytes) {
        let line = lines::first_line(bytes);
        if let Some(value) = crate::json::parsed_text(text::trimmed(line)) {
            law_record_keeps_balance(s, value);
        }
        law_stream_keeps_balance(s.on_line(line), lines::after_line(bytes));
    }
}

/// Noise is ignored: a line that is blank, no JSON, or JSON but no object
/// leaves everything as it was.
pub proof fn law_noise_changes_nothing(s: PiState, line: Seq<char>)
    requires
        text::trimmed(line).len() == 0 || (crate::json::parsed_text(text::trimmed(line)) matches Some(
            v,
        ) ==> !(v is Object)),
    ensures
        s.on_line(line) == s,
{
    reveal(PiState::on_record);
}

/// A stream that never settled is not a success, whatever the exit code; one
/// without a single record has no outcome at all.
pub proof fn law_truncated_is_no_success(s: PiState, exit_code: Option<i32>)
    ensures
        s.saw_structured && !s.saw_settled ==> s.concluded(exit_code).summary.outcome == Some(
            if s.saw_error || model::bad_exit(exit_code) {
                IdleOutcome::Failed
            } else {
                IdleOutcome::Interrupted
            },
        ),
        !s.saw_structured ==> s.concluded(exit_code) == s,
{
}

/// Finishing a stream twice is finishing it once.
pub proof fn law_finish_is_idempotent(
    s: PiState,
    rest: Seq<u8>,
    exit_code: Option<i32>,
    rest_again: Seq<u8>,
    exit_code_again: Option<i32>,
)
    ensures
        s.ended(rest, exit_code).ended(rest_again, exit_code_again) == s.ended(rest, exit_code),
{
    let done = PiState { finished: true, ..s };
    if let Some(value) = crate::json::parsed_text(text::trimmed(lines::last_line(rest))) {
        lemma_finished(done, value);
    }
}

/// Reading lines does not end a stream.
pub proof fn lemma_lines_do_not_end(s: PiState, bytes: Seq<u8>)
    ensures
        lines::read_lines::<PiJsonlParser>(s, bytes).0.finished == s.finished,
        lines::read_lines::<PiJsonlParser>(s, bytes).0.concluding == s.concluding,
    decreases bytes.len(),
{
    if s.question is None && lines::has_line(bytes) && 0 <= lines::feed_at(bytes) {
        let line = lines::first_line(bytes);
        if let Some(value) = crate::json::parsed_text(text::trimmed(line)) {
            lemma_finished(s, value);
            lemma_concluding(s, value);
        }
        lemma_lines_do_not_end(s.on_line(line), lines::after_line(bytes));
    }
}

proof fn lemma_finished(s: PiState, value: JsonView)
    ensures
        s.on_record(value).finished == s.finished,
{
    reveal(PiState::on_record);
}

#[verifier::rlimit(30)]
proof fn lemma_concluding(s: PiState, value: JsonView)
    ensures
        s.on_record(value).concluding == s.concluding,
{
    reveal(PiState::on_record);
}

/// Whether `outgoing` closes pi's stdin at most once and sends nothing behind.
pub open spec fn closes_once(s: PiState) -> bool {
    if s.holds_stdin {
        forall|i: int|
            0 <= i < s.outgoing.len() ==> s.outgoing[i] != json::END_OF_TRANSMISSION
    } else {
        forall|i: int|
            0 <= i < s.outgoing.len() - 1 ==> s.outgoing[i] != json::END_OF_TRANSMISSION
    }
}

proof fn lemma_request_is_plain(i: int)
    requires
        0 <= i < json::stats_request().len(),
    ensures
        json::stats_request()[i] != json::END_OF_TRANSMISSION,
{
    let s = "{\"type\":\"get_session_stats\"}\n";
    reveal_strlit("{\"type\":\"get_session_stats\"}\n");
    assert(vstd::utf8::is_ascii_chars(s@));
    vstd::utf8::is_ascii_chars_encode_utf8(s@);
    assert(json::stats_request() == Seq::new(s@.len(), |i: int| s@[i] as u8));
}

/// pi's stdin is closed at most once, and nothing is written behind the close.
#[verifier::rlimit(60)]
#[verifier::spinoff_prover]
pub proof fn law_stdin_is_closed_once(s: PiState, value: JsonView)
    requires
        closes_once(s),
    ensures
        closes_once(s.on_record(value)),
        closes_once(PiState::start(true)),
        closes_once(PiState::start(false)),
        !s.holds_stdin ==> s.on_record(value).outgoing == s.outgoing,
{
    reveal(PiState::on_record);
    assert forall|t: PiState| closes_once(t) implies closes_once(#[trigger] t.ask_stats()) by {
        assert forall|i: int| 0 <= i < json::stats_request().len() implies json::stats_request()[i]
            != json::END_OF_TRANSMISSION by {
            lemma_request_is_plain(i);
        }
    }
}

spec fn retold(s: PiState) -> bool {
    model::retells(s.summary, s.events)
}

proof fn lemma_retold_header(s: PiState, value: JsonView)
    requires
        retold(s),
    ensures
        retold(s.on_header(value)),
{
    broadcast use crate::model::lemma_one_more_event;

}

proof fn lemma_retold_response(s: PiState, value: JsonView)
    requires
        retold(s),
    ensures
        retold(s.on_response(value)),
{
    broadcast use crate::model::lemma_one_more_event;

}

proof fn lemma_retold_update(s: PiState, value: JsonView)
    requires
        retold(s),
    ensures
        retold(s.on_update(value)),
{
    broadcast use crate::model::lemma_one_more_event;

}

proof fn lemma_retold_tool_end(s: PiState, value: JsonView)
    requires
        retold(s),
    ensures
        retold(s.on_tool_end(value)),
{
    broadcast use crate::model::lemma_one_more_event;

}

proof fn lemma_retold_dialog(s: PiState, value: JsonView)
    requires
        retold(s),
    ensures
        retold(s.on_dialog(value)),
{
    broadcast use crate::model::lemma_one_more_event;

}

proof fn lemma_retold_turn_end(s: PiState, value: JsonView)
    requires
        retold(s),
    ensures
        retold(s.on_turn_end(value)),
{
    broadcast use crate::model::lemma_one_more_event;

}

proof fn lemma_retold_settled(s: PiState)
    requires
        retold(s),
    ensures
        retold(s.on_settled()),
{
    broadcast use crate::model::lemma_one_more_event;

}

proof fn lemma_retold_plainly(s: PiState, value: JsonView)
    requires
        retold(s),
    ensures
        retold(s.on_message_end(value)),
        retold(s.on_compaction(value)),
        forall|e: EventView|
            !(e is TextDelta) && !(e is ReasoningDelta) ==> retold(#[trigger] s.emit(e)),
        forall|m: Seq<char>| retold(#[trigger] s.fail(m)),
{
    broadcast use crate::model::lemma_one_more_event;

}

/// The summary's text and reasoning are the streamed pieces, one behind the
/// other.
pub proof fn law_summary_retells_the_stream(s: PiState, value: JsonView)
    requires
        model::retells(s.summary, s.events),
    ensures
        model::retells(PiState::start(false).summary, PiState::start(false).events),
        model::retells(s.on_record(value).summary, s.on_record(value).events),
{
    reveal(PiState::on_record);
    lemma_retold_header(s, value);
    lemma_retold_response(s, value);
    lemma_retold_update(s, value);
    lemma_retold_tool_end(s, value);
    lemma_retold_dialog(s, value);
    lemma_retold_turn_end(s, value);
    lemma_retold_settled(s);
    lemma_retold_plainly(s, value);
    assert(retold(s.on_record(value)));
}

} // verus!
