//! Tolerant parser for pi's JSON and RPC stdout streams.
//!
//! pi speaks a line-delimited JSON protocol in both `--mode json` (one-shot) and
//! `--mode rpc` (long-lived). The session-event shapes are shared; RPC adds
//! `response` records and `extension_ui_request` dialogs. The parser normalizes
//! both dialects into [`AgentStateEvent`]s and folds the stream into a
//! [`RunSummary`].
//!
//! What an RPC run has to be told on its stdin is collected in
//! [`PiJsonlParser::outgoing`]: requests for the session totals, and the end of
//! transmission once the session has settled, so that a long-lived process
//! exits.
//!
//! A reply with the session totals is taken only where the total cost is not
//! below the cost seen so far. Costs are doubles, which this library does not
//! compare: the parser stops at such a reply, shows the two amounts, and goes on
//! when [`PiJsonlParser::answer`] brings the verdict.
use crate::json;
use crate::json::{
    copied, copied_or_null, is_true, owned, parse, read_double, read_str,
    read_text, read_texts, Json, JsonView,
};
use crate::lines;
use crate::lines::{decode_lossy, drain, feed, LineReader};
use crate::model;
use crate::model::{
    copy_cost, copy_text, exited_badly, record, record_call, reported_cost, AgentStateEvent, AgentUsage, AwaitingInputKind,
    Cost, EventView, IdleOutcome, InputRequest, InputRequestView, MessageRole, RunSummary,
    SummaryView, ToolCall, ToolCallView,
};
use crate::text;
use crate::text::{contains, str_eq, to_ascii_lower, trim};
use vstd::prelude::*;

verus! {

/// The command that asks pi for the totals of its session.
pub open spec fn stats_request() -> Seq<u8> {
    vstd::utf8::encode_utf8("{\"type\":\"get_session_stats\"}\n"@)
}

/// The end of transmission, which closes a terminal's input.
pub const END_OF_TRANSMISSION: u8 = 4;

/// Parses pi's usage object.
///
/// Handles both shapes that pi emits: a message's usage has its counters at the
/// top with a nested `cost.total`, the session totals nest them under `tokens`
/// with a flat `cost`.
pub open spec fn usage_in(value: JsonView) -> AgentUsage {
    let tokens = match value.get("tokens"@) {
        Some(tokens) => tokens,
        None => value,
    };
    let bits = json::first_of(
        json::double_of(value.get2("cost"@, "total"@)),
        json::double_of(value.get("cost"@)),
    );
    AgentUsage {
        input_tokens: tokens.count("input"@),
        output_tokens: tokens.count("output"@),
        reasoning_tokens: tokens.count("reasoning"@),
        cache_read_tokens: tokens.count("cacheRead"@),
        cache_write_tokens: tokens.count("cacheWrite"@),
        cost_usd: model::reported(bits),
    }
}

/// Parses pi's usage object.
pub fn parse_usage(value: &Json) -> (usage: AgentUsage)
    ensures
        usage == usage_in(value@),
{
    let tokens = match value.get("tokens") {
        Some(tokens) => tokens,
        None => value,
    };
    let bits = match read_double(value.get2("cost", "total")) {
        Some(bits) => Some(bits),
        None => read_double(value.get("cost")),
    };
    AgentUsage {
        input_tokens: tokens.count("input"),
        output_tokens: tokens.count("output"),
        reasoning_tokens: tokens.count("reasoning"),
        cache_read_tokens: tokens.count("cacheRead"),
        cache_write_tokens: tokens.count("cacheWrite"),
        cost_usd: reported_cost(bits),
    }
}

/// Whether no counter of `total` is below that of `emitted`.
pub open spec fn counters_cover(total: AgentUsage, emitted: AgentUsage) -> bool {
    &&& total.input_tokens >= emitted.input_tokens
    &&& total.output_tokens >= emitted.output_tokens
    &&& total.reasoning_tokens >= emitted.reasoning_tokens
    &&& total.cache_read_tokens >= emitted.cache_read_tokens
    &&& total.cache_write_tokens >= emitted.cache_write_tokens
}

/// Whether `total` is at least `emitted` in every counter and in its cost, that
/// is, no stale snapshot of totals that only grow. `cost_covers` is the verdict
/// on the two costs.
pub fn usage_covers(total: &AgentUsage, emitted: &AgentUsage, cost_covers: bool) -> (covers: bool)
    ensures
        covers == (counters_cover(*total, *emitted) && cost_covers),
{
    total.input_tokens >= emitted.input_tokens && total.output_tokens >= emitted.output_tokens
        && total.reasoning_tokens >= emitted.reasoning_tokens && total.cache_read_tokens
        >= emitted.cache_read_tokens && total.cache_write_tokens >= emitted.cache_write_tokens
        && cost_covers
}

/// `a` less `b`, at least zero.
pub open spec fn less(a: u64, b: u64) -> u64 {
    if a < b {
        0
    } else {
        (a - b) as u64
    }
}

/// The part of `total` that `emitted` does not reflect yet, field by field.
pub open spec fn delta(total: AgentUsage, emitted: AgentUsage) -> AgentUsage {
    AgentUsage {
        input_tokens: less(total.input_tokens, emitted.input_tokens),
        output_tokens: less(total.output_tokens, emitted.output_tokens),
        reasoning_tokens: less(total.reasoning_tokens, emitted.reasoning_tokens),
        cache_read_tokens: less(total.cache_read_tokens, emitted.cache_read_tokens),
        cache_write_tokens: less(total.cache_write_tokens, emitted.cache_write_tokens),
        cost_usd: model::cost_excess(total.cost_usd, emitted.cost_usd),
    }
}

/// The part of `total` that `emitted` does not reflect yet.
pub fn usage_delta(total: &AgentUsage, emitted: &AgentUsage) -> (usage: AgentUsage)
    ensures
        usage == delta(*total, *emitted),
{
    AgentUsage {
        input_tokens: total.input_tokens.saturating_sub(emitted.input_tokens),
        output_tokens: total.output_tokens.saturating_sub(emitted.output_tokens),
        reasoning_tokens: total.reasoning_tokens.saturating_sub(emitted.reasoning_tokens),
        cache_read_tokens: total.cache_read_tokens.saturating_sub(emitted.cache_read_tokens),
        cache_write_tokens: total.cache_write_tokens.saturating_sub(emitted.cache_write_tokens),
        cost_usd: match &total.cost_usd {
            Some(cost) => Some(
                Cost::Excess(
                    Box::new(cost.clone()),
                    match &emitted.cost_usd {
                        Some(e) => Some(Box::new(e.clone())),
                        None => None,
                    },
                ),
            ),
            None => None,
        },
    }
}

/// The human-readable prompt of a dialog: its title, else its message.
pub open spec fn prompt_in(value: JsonView) -> Seq<char> {
    json::non_empty_or(
        text::trimmed(value.text("title"@)),
        text::trimmed(value.text("message"@)),
    )
}

/// The human-readable prompt of a dialog.
pub fn ui_message(value: &Json) -> (message: String)
    ensures
        message@ == prompt_in(value@),
{
    let title = trim(value.text("title"));
    if !title.is_empty() {
        return title.to_owned();
    }
    trim(value.text("message")).to_owned()
}

/// What a pi stream has shown so far.
pub struct PiState {
    /// Every event, in order.
    pub events: Seq<EventView>,
    pub summary: SummaryView,
    /// The usage that the current turn reported last.
    pub last_usage: Option<AgentUsage>,
    /// The sum of the usage events.
    pub emitted_usage: AgentUsage,
    /// Whether pi's stdin is still to be closed by this parser.
    pub holds_stdin: bool,
    /// Whether session totals are asked for.
    pub asks_stats: bool,
    /// Everything to be written to pi's stdin, in order.
    pub outgoing: Seq<u8>,
    pub saw_structured: bool,
    pub saw_settled: bool,
    pub saw_error: bool,
    pub finished: bool,
    /// Session totals whose cost waits for a verdict.
    pub question: Option<AgentUsage>,
    /// The exit code with which the stream is to be concluded after the verdict.
    pub concluding: Option<Option<i32>>,
}

impl PiState {
    /// The state before the first byte.
    pub open spec fn start(holds_stdin: bool) -> PiState {
        PiState {
            events: Seq::empty(),
            summary: model::blank_summary(),
            last_usage: None,
            emitted_usage: model::no_usage(),
            holds_stdin,
            asks_stats: holds_stdin,
            outgoing: Seq::empty(),
            saw_structured: false,
            saw_settled: false,
            saw_error: false,
            finished: false,
            question: None,
            concluding: None,
        }
    }

    pub open spec fn emit(self, event: EventView) -> PiState {
        PiState { events: self.events.push(event), saw_structured: true, ..self }
    }

    /// Counts `usage` in, and tells of it.
    pub open spec fn spend(self, usage: AgentUsage) -> PiState {
        PiState {
            summary: SummaryView { usage: self.summary.usage.merged(usage), ..self.summary },
            emitted_usage: self.emitted_usage.merged(usage),
            ..self.emit(EventView::Usage { usage })
        }
    }

    pub open spec fn fail(self, message: Seq<char>) -> PiState {
        PiState {
            saw_error: true,
            summary: SummaryView { error: Some(message), ..self.summary },
            ..self.emit(EventView::Error { message })
        }
    }

    /// Asks for the session totals.
    pub open spec fn ask_stats(self) -> PiState {
        if self.asks_stats && self.holds_stdin {
            PiState { outgoing: self.outgoing + stats_request(), ..self }
        } else {
            self
        }
    }

    /// `{"type":"session","id":…}`: the header of a one-shot run.
    pub open spec fn on_header(self, value: JsonView) -> PiState {
        match json::str_of(value.get("id"@)) {
            Some(id) => PiState {
                summary: SummaryView {
                    session_id: json::first_of(self.summary.session_id, Some(id)),
                    ..self.summary
                },
                ..self.emit(
                    EventView::Session {
                        session_id: Some(id),
                        title: self.summary.title,
                        model: None,
                    },
                )
            },
            None => self,
        }
    }

    /// The reply to `get_state`: the session's identity.
    pub open spec fn on_identity(self, value: JsonView) -> PiState {
        match value.get("data"@) {
            Some(data) => {
                let session_id = json::str_of(data.get("sessionId"@));
                let title = match json::str_of(data.get("sessionName"@)) {
                    Some(name) => if name.len() > 0 {
                        Some(name)
                    } else {
                        None
                    },
                    None => None,
                };
                let model = json::str_of(data.get2("model"@, "id"@));
                PiState {
                    summary: SummaryView {
                        session_id: json::first_of(self.summary.session_id, session_id),
                        title: json::first_of(title, self.summary.title),
                        ..self.summary
                    },
                    ..self.emit(EventView::Session { session_id, title, model })
                }
            },
            None => self,
        }
    }

    /// The reply to `get_session_stats`: totals that lack no counted token are
    /// held until their cost is judged.
    pub open spec fn on_stats(self, data: Option<JsonView>) -> PiState {
        match data {
            Some(data) => {
                let reported = usage_in(data);
                let total = AgentUsage {
                    reasoning_tokens: if reported.reasoning_tokens
                        >= self.emitted_usage.reasoning_tokens {
                        reported.reasoning_tokens
                    } else {
                        self.emitted_usage.reasoning_tokens
                    },
                    ..reported
                };
                if reported != model::no_usage() && counters_cover(total, self.emitted_usage) {
                    PiState { question: Some(total), ..self }
                } else {
                    self
                }
            },
            None => self,
        }
    }

    /// Takes `total` as the session's usage, and tells of what is new in it.
    pub open spec fn accept(self, total: AgentUsage) -> PiState {
        let new = delta(total, self.emitted_usage);
        PiState {
            events: if new == model::no_usage() {
                self.events
            } else {
                self.events.push(EventView::Usage { usage: new })
            },
            saw_structured: true,
            summary: SummaryView { usage: total, ..self.summary },
            emitted_usage: total,
            ..self
        }
    }

    /// The state once the held totals are judged.
    pub open spec fn judged(self, cost_covers: bool) -> PiState {
        match self.question {
            Some(total) => {
                let free = PiState { question: None, ..self };
                if cost_covers {
                    free.accept(total)
                } else {
                    free
                }
            },
            None => self,
        }
    }

    pub open spec fn on_response(self, value: JsonView) -> PiState {
        let command = json::str_of(value.get("command"@));
        if json::bool_of(value.get("success"@)) != Some(true) {
            self
        } else if command == Some("get_state"@) {
            self.on_identity(value)
        } else if command == Some("get_session_stats"@) {
            self.on_stats(value.get("data"@))
        } else {
            self
        }
    }

    pub open spec fn on_update(self, value: JsonView) -> PiState {
        let told = PiState {
            last_usage: match value.get("usage"@) {
                Some(usage) => Some(usage_in(usage)),
                None => self.last_usage,
            },
            ..self
        };
        let kind = json::text_of(value.get2("assistantMessageEvent"@, "type"@));
        let piece = json::text_of(value.get2("assistantMessageEvent"@, "delta"@));
        if kind == "text_delta"@ {
            if piece.len() > 0 {
                PiState {
                    summary: SummaryView { text: told.summary.text + piece, ..told.summary },
                    ..told.emit(EventView::TextDelta { role: MessageRole::Assistant, text: piece })
                }
            } else {
                told
            }
        } else if kind == "thinking_delta"@ {
            if piece.len() > 0 {
                PiState {
                    summary: SummaryView {
                        reasoning: told.summary.reasoning + piece,
                        ..told.summary
                    },
                    ..told.emit(EventView::ReasoningDelta { text: piece })
                }
            } else {
                told
            }
        } else if kind == "error"@ {
            told.fail(
                json::non_empty_or(
                    json::text_of(value.get2("assistantMessageEvent"@, "error"@)),
                    json::non_empty_or(value.text("error"@), "agent error"@),
                ),
            )
        } else {
            told
        }
    }

    /// A completed message: an assistant's usage is held until the turn ends,
    /// that of a tool result counts at once.
    pub open spec fn on_message_end(self, value: JsonView) -> PiState {
        let role = json::text_of(value.get2("message"@, "role"@));
        match value.get2("message"@, "usage"@) {
            Some(usage) => if !(usage is Object) {
                self
            } else if role == "assistant"@ {
                PiState { saw_structured: true, last_usage: Some(usage_in(usage)), ..self }
            } else if role == "toolResult"@ {
                self.spend(usage_in(usage))
            } else {
                self
            },
            None => self,
        }
    }

    pub open spec fn on_compaction(self, value: JsonView) -> PiState {
        match value.get2("result"@, "usage"@) {
            Some(usage) => if usage is Object {
                self.spend(usage_in(usage))
            } else {
                self
            },
            None => self,
        }
    }

    pub open spec fn on_tool_end(self, value: JsonView) -> PiState {
        let id = value.text("toolCallId"@);
        let name = value.text("toolName"@);
        let ok = json::bool_of(value.get("isError"@)) != Some(true);
        let output = value.get("result"@);
        PiState {
            summary: SummaryView {
                tool_calls: self.summary.tool_calls.push(
                    ToolCallView { id, name, input: JsonView::Null, ok, output },
                ),
                ..self.summary
            },
            ..self.emit(EventView::ToolFinished { id, name, ok, output })
        }
    }

    pub open spec fn on_dialog(self, value: JsonView) -> PiState {
        let method = value.text("method"@);
        let ask = InputRequestView {
            id: value.text("id"@),
            kind: AwaitingInputKind::Other,
            message: prompt_in(value),
            options: Seq::empty(),
            allow_always: false,
        };
        if method == "select"@ {
            let options = json::texts_in(value.get("options"@));
            self.emit(
                EventView::InputRequested {
                    request: InputRequestView {
                        kind: AwaitingInputKind::Choice,
                        options,
                        allow_always: offers_always(options),
                        ..ask
                    },
                },
            )
        } else if method == "confirm"@ {
            self.emit(
                EventView::InputRequested {
                    request: InputRequestView { kind: AwaitingInputKind::Confirmation, ..ask },
                },
            )
        } else if method == "input"@ || method == "editor"@ {
            self.emit(EventView::InputRequested { request: ask })
        } else if method == "setTitle"@ {
            let title = text::trimmed(value.text("title"@));
            if title.len() > 0 {
                self.emit(EventView::Title { title })
            } else {
                self
            }
        } else {
            self
        }
    }

    /// The end of a turn: its usage counts once, and the totals are asked for.
    pub open spec fn on_turn_end(self, value: JsonView) -> PiState {
        let reported = match value.get2("message"@, "usage"@) {
            Some(usage) => if usage is Object {
                Some(usage_in(usage))
            } else {
                None
            },
            None => None,
        };
        let free = PiState { last_usage: None, ..self };
        match json::first_of(reported, self.last_usage) {
            Some(usage) => free.spend(usage).ask_stats(),
            None => free.ask_stats(),
        }
    }

    /// The agent will not go on by itself: the run is over, and its stdin is
    /// closed, once.
    pub open spec fn on_settled(self) -> PiState {
        let outcome = if self.saw_error {
            IdleOutcome::Failed
        } else {
            IdleOutcome::Succeeded
        };
        let told = PiState {
            saw_settled: true,
            summary: SummaryView { outcome: Some(outcome), ..self.summary },
            ..self.emit(EventView::Idle { outcome })
        }.ask_stats();
        if told.holds_stdin {
            PiState {
                holds_stdin: false,
                outgoing: told.outgoing.push(END_OF_TRANSMISSION),
                ..told
            }
        } else {
            told
        }
    }

    /// The state after one record.
    #[verifier::opaque]
    pub open spec fn on_record(self, value: JsonView) -> PiState {
        let kind = value.text("type"@);
        if !(value is Object) {
            self
        } else if kind == "session"@ {
            self.on_header(value)
        } else if kind == "response"@ {
            self.on_response(value)
        } else if kind == "agent_start"@ {
            self.emit(EventView::TurnStarted)
        } else if kind == "message_update"@ {
            self.on_update(value)
        } else if kind == "message_end"@ {
            self.on_message_end(value)
        } else if kind == "tool_execution_start"@ {
            self.emit(
                EventView::ToolStarted {
                    id: value.text("toolCallId"@),
                    name: value.text("toolName"@),
                    input: json::or_null(value.get("args"@)),
                },
            )
        } else if kind == "tool_execution_update"@ {
            self.emit(
                EventView::ToolUpdated {
                    id: value.text("toolCallId"@),
                    partial: json::or_null(value.get("partialResult"@)),
                },
            )
        } else if kind == "tool_execution_end"@ {
            self.on_tool_end(value)
        } else if kind == "extension_ui_request"@ {
            self.on_dialog(value)
        } else if kind == "session_info_changed"@ {
            let title = text::trimmed(value.text("name"@));
            if title.len() > 0 {
                PiState {
                    summary: SummaryView { title: Some(title), ..self.summary },
                    ..self.emit(EventView::Title { title })
                }
            } else {
                self
            }
        } else if kind == "turn_end"@ {
            self.on_turn_end(value)
        } else if kind == "compaction_end"@ {
            self.on_compaction(value)
        } else if kind == "agent_settled"@ {
            self.on_settled()
        } else if kind == "extension_error"@ {
            self.fail(
                json::non_empty_or(text::trimmed(value.text("error"@)), "extension error"@),
            )
        } else {
            self
        }
    }

    /// The state after one line; a line that is no JSON changes nothing.
    pub open spec fn on_line(self, line: Seq<char>) -> PiState {
        let content = text::trimmed(line);
        if content.len() == 0 {
            self
        } else {
            match json::parsed_text(content) {
                Some(value) => self.on_record(value),
                None => self,
            }
        }
    }

    /// The state at the end of a stream whose process ended with `exit_code`.
    pub open spec fn concluded(self, exit_code: Option<i32>) -> PiState {
        if !self.saw_structured {
            self
        } else {
            let free = PiState { last_usage: None, ..self };
            let spent = match self.last_usage {
                Some(usage) => free.spend(usage),
                None => free,
            };
            if spent.saw_settled {
                spent
            } else {
                let outcome = if spent.saw_error || model::bad_exit(exit_code) {
                    IdleOutcome::Failed
                } else {
                    IdleOutcome::Interrupted
                };
                PiState {
                    summary: SummaryView { outcome: Some(outcome), ..spent.summary },
                    ..spent.emit(EventView::Idle { outcome })
                }
            }
        }
    }

    /// The state once the last bytes, `rest`, and the exit code are known.
    pub open spec fn ended(self, rest: Seq<u8>, exit_code: Option<i32>) -> PiState {
        if self.finished {
            self
        } else {
            let done = PiState { finished: true, ..self };
            let tail = lines::last_line(rest);
            let read = if tail.len() > 0 {
                done.on_line(tail)
            } else {
                done
            };
            if read.question is Some {
                PiState { concluding: Some(exit_code), ..read }
            } else {
                read.concluded(exit_code)
            }
        }
    }
}

/// Whether one of `options` speaks of "always".
pub open spec fn offers_always(options: Seq<Seq<char>>) -> bool {
    exists|i: int|
        0 <= i < options.len() && text::occurs(#[trigger] text::ascii_lowered(options[i]), "always"@)
}

/// Whether one of `options` speaks of "always".
fn any_always(options: &Vec<String>) -> (found: bool)
    ensures
        found == offers_always(text::views(options@)),
{
    let mut i: usize = 0;
    while i < options.len()
        invariant
            i <= options@.len(),
            forall|k: int|
                0 <= k < i ==> !text::occurs(
                    #[trigger] text::ascii_lowered(text::views(options@)[k]),
                    "always"@,
                ),
        decreases options@.len() - i,
    {
        let lower = to_ascii_lower(options[i].as_str());
        assert(text::views(options@)[i as int] == options@[i as int]@);
        if contains(lower.as_str(), "always") {
            assert(text::occurs(text::ascii_lowered(text::views(options@)[i as int]), "always"@));
            return true;
        }
        i += 1;
    }
    false
}

/// A streaming, noise-tolerant parser of pi's output.
pub struct PiJsonlParser {
    /// Bytes seen but not yet read as a line.
    buffer: Vec<u8>,
    events: Vec<AgentStateEvent>,
    summary: RunSummary,
    last_usage: Option<AgentUsage>,
    emitted_usage: AgentUsage,
    holds_stdin: bool,
    asks_stats: bool,
    outgoing: Vec<u8>,
    saw_structured: bool,
    saw_settled: bool,
    saw_error: bool,
    finished: bool,
    question: Option<AgentUsage>,
    concluding: Option<Option<i32>>,
}

impl View for PiJsonlParser {
    type V = PiState;

    closed spec fn view(&self) -> PiState {
        PiState {
            events: model::event_views(self.events@),
            summary: self.summary@,
            last_usage: self.last_usage,
            emitted_usage: self.emitted_usage,
            holds_stdin: self.holds_stdin,
            asks_stats: self.asks_stats,
            outgoing: self.outgoing@,
            saw_structured: self.saw_structured,
            saw_settled: self.saw_settled,
            saw_error: self.saw_error,
            finished: self.finished,
            question: self.question,
            concluding: self.concluding,
        }
    }
}

impl LineReader for PiJsonlParser {
    type State = PiState;

    open spec fn state(&self) -> PiState {
        self@
    }

    open spec fn step(state: PiState, line: Seq<char>) -> PiState {
        state.on_line(line)
    }

    open spec fn stopped(state: PiState) -> bool {
        state.question is Some
    }

    fn is_stopped(&self) -> (stopped: bool) {
        self.question.is_some()
    }

    fn process_line(&mut self, line: &str)
        ensures
            final(self).unread() == old(self).unread(),
    {
        let content = trim(line);
        if content.is_empty() {
            return;
        }
        if let Some(value) = parse(content) {
            self.process_value(&value);
        }
    }
}

impl PiJsonlParser {
    /// The bytes that have not been read as a line yet.
    pub closed spec fn unread(&self) -> Seq<u8> {
        self.buffer@
    }

    /// A parser that only accumulates events and the summary.
    pub fn new() -> (parser: PiJsonlParser)
        ensures
            parser@ == PiState::start(false),
            parser.unread() == Seq::<u8>::empty(),
    {
        let parser = PiJsonlParser {
            buffer: Vec::new(),
            events: Vec::new(),
            summary: RunSummary::default(),
            last_usage: None,
            emitted_usage: AgentUsage::default(),
            holds_stdin: false,
            asks_stats: false,
            outgoing: Vec::new(),
            saw_structured: false,
            saw_settled: false,
            saw_error: false,
            finished: false,
            question: None,
            concluding: None,
        };
        assert(parser@.events == Seq::<EventView>::empty());
        parser
    }

    /// A parser of a live run. With `close_on_settle` the run reads commands on
    /// its stdin: it is asked for its totals, and its stdin is closed once the
    /// session settles.
    pub fn with_channel(close_on_settle: bool) -> (parser: PiJsonlParser)
        ensures
            parser@ == PiState::start(close_on_settle),
            parser.unread() == Seq::<u8>::empty(),
    {
        let mut parser = PiJsonlParser::new();
        parser.holds_stdin = close_on_settle;
        parser.asks_stats = close_on_settle;
        parser
    }

    /// The structured result built so far.
    pub fn summary(&self) -> (summary: &RunSummary)
        ensures
            summary@ == self@.summary,
    {
        &self.summary
    }

    /// The normalized events observed so far, in order.
    pub fn events(&self) -> (events: &Vec<AgentStateEvent>)
        ensures
            model::event_views(events@) == self@.events,
    {
        &self.events
    }

    /// Everything to be written to pi's stdin so far, in order.
    pub fn outgoing(&self) -> (bytes: &Vec<u8>)
        ensures
            bytes@ == self@.outgoing,
    {
        &self.outgoing
    }

    /// The two costs to be compared before the stream goes on: that of the
    /// reported totals, and that of what has been counted. Where this is
    /// something, [`Self::answer`] is owed whether the first is not below the
    /// second; no cost counts as zero.
    pub fn question(&self) -> (question: Option<(Option<Cost>, Option<Cost>)>)
        ensures
            question == match self@.question {
                Some(total) => Some((total.cost_usd, self@.emitted_usage.cost_usd)),
                None => None,
            },
    {
        match &self.question {
            Some(total) => Some(
                (copy_cost(&total.cost_usd), copy_cost(&self.emitted_usage.cost_usd)),
            ),
            None => None,
        }
    }

    fn emit(&mut self, event: AgentStateEvent)
        ensures
            final(self)@ == old(self)@.emit(event@),
            final(self).buffer == old(self).buffer,
    {
        self.saw_structured = true;
        record(&mut self.events, event);
    }

    fn emit_usage(&mut self, usage: AgentUsage)
        ensures
            final(self)@ == old(self)@.spend(usage),
            final(self).buffer == old(self).buffer,
    {
        self.summary.usage.merge(&usage);
        self.emitted_usage.merge(&usage);
        self.emit(AgentStateEvent::Usage { usage });
    }

    fn record_error(&mut self, message: String)
        ensures
            final(self)@ == old(self)@.fail(message@),
            final(self).buffer == old(self).buffer,
    {
        self.saw_error = true;
        self.summary.error = Some(message.clone());
        self.emit(AgentStateEvent::Error { message });
    }

    fn request_session_stats(&mut self)
        ensures
            final(self)@ == old(self)@.ask_stats(),
            final(self).buffer == old(self).buffer,
    {
        if self.asks_stats && self.holds_stdin {
            let request = "{\"type\":\"get_session_stats\"}\n".as_bytes();
            let mut i: usize = 0;
            let ghost before = *self;
            while i < request.len()
                invariant
                    i <= request@.len(),
                    request@ == stats_request(),
                    self@ == (PiState {
                        outgoing: before@.outgoing + stats_request().take(i as int),
                        ..before@
                    }),
                    self.buffer == before.buffer,
                decreases request@.len() - i,
            {
                let ghost out = self.outgoing@;
                self.outgoing.push(request[i]);
                assert(self.outgoing@ == before@.outgoing + stats_request().take(i + 1));
                i += 1;
            }
            assert(stats_request().take(i as int) == stats_request());
        }
    }

    fn process_session_header(&mut self, value: &Json)
        ensures
            final(self)@ == old(self)@.on_header(value@),
            final(self).buffer == old(self).buffer,
    {
        if let Some(session_id) = read_str(value.get("id")) {
            if self.summary.session_id.is_none() {
                self.summary.session_id = Some(session_id.to_owned());
            }
            let title = copy_text(&self.summary.title);
            self.emit(
                AgentStateEvent::Session {
                    session_id: Some(session_id.to_owned()),
                    title,
                    model: None,
                },
            );
        }
    }

    fn process_response(&mut self, value: &Json)
        ensures
            final(self)@ == old(self)@.on_response(value@),
            final(self).buffer == old(self).buffer,
    {
        if !is_true(value.get("success")) {
            return;
        }
        if let Some(command) = read_str(value.get("command")) {
            if str_eq(command, "get_state") {
                self.process_get_state(value);
            } else if str_eq(command, "get_session_stats") {
                self.process_session_stats(value.get("data"));
            }
        }
    }

    fn process_get_state(&mut self, value: &Json)
        ensures
            final(self)@ == old(self)@.on_identity(value@),
            final(self).buffer == old(self).buffer,
    {
        if let Some(data) = value.get("data") {
            let session_id = owned(read_str(data.get("sessionId")));
            let title = match read_str(data.get("sessionName")) {
                Some(name) => if name.is_empty() {
                    None
                } else {
                    Some(name.to_owned())
                },
                None => None,
            };
            let model = owned(read_str(data.get2("model", "id")));
            if self.summary.session_id.is_none() {
                self.summary.session_id = copy_text(&session_id);
            }
            if title.is_some() {
                self.summary.title = copy_text(&title);
            }
            self.emit(AgentStateEvent::Session { session_id, title, model });
        }
    }

    /// Holds the totals that a `get_session_stats` reply reports, unless they
    /// are a stale snapshot.
    fn process_session_stats(&mut self, data: Option<&Json>)
        ensures
            final(self)@ == old(self)@.on_stats(json::opt_json_ref(data)),
            final(self).buffer == old(self).buffer,
    {
        if let Some(data) = data {
            let mut total = parse_usage(data);
            if total.is_empty() {
                return;
            }
            // The totals leave out `reasoning`: keep what the turns reported.
            if total.reasoning_tokens < self.emitted_usage.reasoning_tokens {
                total.reasoning_tokens = self.emitted_usage.reasoning_tokens;
            }
            if usage_covers(&total, &self.emitted_usage, true) {
                self.question = Some(total);
            }
        }
    }

    fn accept_stats(&mut self, total: AgentUsage)
        ensures
            final(self)@ == old(self)@.accept(total),
            final(self).buffer == old(self).buffer,
    {
        let usage = usage_delta(&total, &self.emitted_usage);
        self.saw_structured = true;
        self.summary.usage = total.clone();
        self.emitted_usage = total;
        if !usage.is_empty() {
            self.emit(AgentStateEvent::Usage { usage });
        }
    }

    fn process_message_update(&mut self, value: &Json)
        ensures
            final(self)@ == old(self)@.on_update(value@),
            final(self).buffer == old(self).buffer,
    {
        if let Some(usage) = value.get("usage") {
            self.last_usage = Some(parse_usage(usage));
        }
        let kind = read_text(value.get2("assistantMessageEvent", "type"));
        let piece = read_text(value.get2("assistantMessageEvent", "delta"));
        if str_eq(kind, "text_delta") {
            if !piece.is_empty() {
                self.summary.text.append(piece);
                self.emit(
                    AgentStateEvent::TextDelta {
                        role: MessageRole::Assistant,
                        text: piece.to_owned(),
                    },
                );
            }
        } else if str_eq(kind, "thinking_delta") {
            if !piece.is_empty() {
                self.summary.reasoning.append(piece);
                self.emit(AgentStateEvent::ReasoningDelta { text: piece.to_owned() });
            }
        } else if str_eq(kind, "error") {
            let inner = read_text(value.get2("assistantMessageEvent", "error"));
            let outer = value.text("error");
            let message = if !inner.is_empty() {
                inner
            } else if !outer.is_empty() {
                outer
            } else {
                "agent error"
            };
            self.record_error(message.to_owned());
        }
    }

    fn process_message_end(&mut self, value: &Json)
        ensures
            final(self)@ == old(self)@.on_message_end(value@),
            final(self).buffer == old(self).buffer,
    {
        if let Some(usage) = value.get2("message", "usage") {
            if usage.is_object() {
                let role = read_text(value.get2("message", "role"));
                if str_eq(role, "assistant") {
                    self.saw_structured = true;
                    self.last_usage = Some(parse_usage(usage));
                } else if str_eq(role, "toolResult") {
                    self.emit_usage(parse_usage(usage));
                }
            }
        }
    }

    fn process_compaction_end(&mut self, value: &Json)
        ensures
            final(self)@ == old(self)@.on_compaction(value@),
            final(self).buffer == old(self).buffer,
    {
        if let Some(usage) = value.get2("result", "usage") {
            if usage.is_object() {
                self.emit_usage(parse_usage(usage));
            }
        }
    }

    fn process_tool_end(&mut self, value: &Json)
        ensures
            final(self)@ == old(self)@.on_tool_end(value@),
            final(self).buffer == old(self).buffer,
    {
        let id = value.text("toolCallId");
        let name = value.text("toolName");
        let ok = !is_true(value.get("isError"));
        let output = value.get("result");
        self.emit(
            AgentStateEvent::ToolFinished {
                id: id.to_owned(),
                name: name.to_owned(),
                ok,
                output: copied(output),
            },
        );
        record_call(
            &mut self.summary.tool_calls,
            ToolCall {
                id: id.to_owned(),
                name: name.to_owned(),
                input: Json::Null,
                ok,
                output: copied(output),
            },
        );
    }

    fn process_extension_ui(&mut self, value: &Json)
        ensures
            final(self)@ == old(self)@.on_dialog(value@),
            final(self).buffer == old(self).buffer,
    {
        let method = value.text("method");
        let id = value.text("id").to_owned();
        if str_eq(method, "select") {
            let options = read_texts(value.get("options"));
            let allow_always = any_always(&options);
            self.emit(
                AgentStateEvent::InputRequested {
                    request: InputRequest {
                        id,
                        kind: AwaitingInputKind::Choice,
                        message: ui_message(value),
                        options,
                        allow_always,
                    },
                },
            );
        } else if str_eq(method, "confirm") {
            self.emit_dialog(id, AwaitingInputKind::Confirmation, ui_message(value));
        } else if str_eq(method, "input") || str_eq(method, "editor") {
            self.emit_dialog(id, AwaitingInputKind::Other, ui_message(value));
        } else if str_eq(method, "setTitle") {
            let title = trim(value.text("title"));
            if !title.is_empty() {
                self.emit(AgentStateEvent::Title { title: title.to_owned() });
            }
        }
    }

    /// Tells of a dialog without options.
    fn emit_dialog(&mut self, id: String, kind: AwaitingInputKind, message: String)
        ensures
            final(self)@ == old(self)@.emit(
                EventView::InputRequested {
                    request: InputRequestView {
                        id: id@,
                        kind,
                        message: message@,
                        options: Seq::empty(),
                        allow_always: false,
                    },
                },
            ),
            final(self).buffer == old(self).buffer,
    {
        let request = InputRequest {
            id,
            kind,
            message,
            options: Vec::new(),
            allow_always: false,
        };
        assert(request@.options == Seq::<Seq<char>>::empty());
        self.emit(AgentStateEvent::InputRequested { request });
    }

    fn process_turn_end(&mut self, value: &Json)
        ensures
            final(self)@ == old(self)@.on_turn_end(value@),
            final(self).buffer == old(self).buffer,
    {
        let streamed = self.last_usage.take();
        let reported = match value.get2("message", "usage") {
            Some(usage) => if usage.is_object() {
                Some(parse_usage(usage))
            } else {
                None
            },
            None => None,
        };
        let usage = match reported {
            Some(usage) => Some(usage),
            None => streamed,
        };
        if let Some(usage) = usage {
            self.emit_usage(usage);
        }
        self.request_session_stats();
    }

    fn process_settled(&mut self)
        ensures
            final(self)@ == old(self)@.on_settled(),
            final(self).buffer == old(self).buffer,
    {
        self.saw_settled = true;
        let outcome = if self.saw_error {
            IdleOutcome::Failed
        } else {
            IdleOutcome::Succeeded
        };
        self.summary.outcome = Some(outcome);
        self.emit(AgentStateEvent::Idle { outcome });
        // The totals are asked for before stdin is closed.
        self.request_session_stats();
        if self.holds_stdin {
            self.holds_stdin = false;
            self.outgoing.push(END_OF_TRANSMISSION);
        }
    }

    /// Reads one record of the stream.
    pub fn process_value(&mut self, value: &Json)
        ensures
            final(self)@ == old(self)@.on_record(value@),
            final(self).unread() == old(self).unread(),
    {
        reveal(PiState::on_record);
        if !value.is_object() {
            return;
        }
        let kind = value.text("type");
        if str_eq(kind, "session") {
            self.process_session_header(value);
        } else if str_eq(kind, "response") {
            self.process_response(value);
        } else if str_eq(kind, "agent_start") {
            self.emit(AgentStateEvent::TurnStarted);
        } else if str_eq(kind, "message_update") {
            self.process_message_update(value);
        } else if str_eq(kind, "message_end") {
            self.process_message_end(value);
        } else if str_eq(kind, "tool_execution_start") {
            self.emit(
                AgentStateEvent::ToolStarted {
                    id: value.text("toolCallId").to_owned(),
                    name: value.text("toolName").to_owned(),
                    input: copied_or_null(value.get("args")),
                },
            );
        } else if str_eq(kind, "tool_execution_update") {
            self.emit(
                AgentStateEvent::ToolUpdated {
                    id: value.text("toolCallId").to_owned(),
                    partial: copied_or_null(value.get("partialResult")),
                },
            );
        } else if str_eq(kind, "tool_execution_end") {
            self.process_tool_end(value);
        } else if str_eq(kind, "extension_ui_request") {
            self.process_extension_ui(value);
        } else if str_eq(kind, "session_info_changed") {
            let title = trim(value.text("name"));
            if !title.is_empty() {
                self.summary.title = Some(title.to_owned());
                self.emit(AgentStateEvent::Title { title: title.to_owned() });
            }
        } else if str_eq(kind, "turn_end") {
            self.process_turn_end(value);
        } else if str_eq(kind, "compaction_end") {
            self.process_compaction_end(value);
        } else if str_eq(kind, "agent_settled") {
            self.process_settled();
        } else if str_eq(kind, "extension_error") {
            let message = trim(value.text("error"));
            let message = if message.is_empty() {
                "extension error"
            } else {
                message
            };
            self.record_error(message.to_owned());
        }
        // Echoed commands and unrelated records are ignored.
    }

    /// Feeds a raw output chunk. Complete lines are read at once; a partial
    /// line is held until more bytes, or [`Self::finish`], arrive.
    pub fn push(&mut self, chunk: &[u8])
        ensures
            (final(self)@, final(self).unread()) == lines::read_lines::<PiJsonlParser>(
                old(self)@,
                old(self).unread() + chunk@,
            ),
    {
        let mut buffer: Vec<u8> = Vec::new();
        std::mem::swap(&mut self.buffer, &mut buffer);
        feed(self, &mut buffer, chunk);
        self.buffer = buffer;
    }

    /// Says whether the cost in [`Self::question`] covers what was counted, and
    /// goes on with the stream.
    pub fn answer(&mut self, cost_covers: bool)
        ensures
            match old(self)@.concluding {
                Some(exit_code) => {
                    &&& final(self)@ == (PiState {
                        concluding: None,
                        ..old(self)@.judged(cost_covers)
                    }).concluded(exit_code)
                    &&& final(self).unread() == old(self).unread()
                },
                None => (final(self)@, final(self).unread()) == lines::read_lines::<PiJsonlParser>(
                    old(self)@.judged(cost_covers),
                    old(self).unread(),
                ),
            },
    {
        let mut buffer: Vec<u8> = Vec::new();
        std::mem::swap(&mut self.buffer, &mut buffer);
        if let Some(total) = self.question.take() {
            if cost_covers {
                self.accept_stats(total);
            }
        }
        match self.concluding.take() {
            Some(exit_code) => {
                self.conclude(exit_code);
            },
            None => {
                drain(self, &mut buffer);
            },
        }
        self.buffer = buffer;
    }

    fn conclude(&mut self, exit_code: Option<i32>)
        ensures
            final(self)@ == old(self)@.concluded(exit_code),
            final(self).buffer == old(self).buffer,
    {
        if !self.saw_structured {
            return;
        }
        if let Some(usage) = self.last_usage.take() {
            self.emit_usage(usage);
        }
        if !self.saw_settled {
            let outcome = if self.saw_error || exited_badly(exit_code) {
                IdleOutcome::Failed
            } else {
                IdleOutcome::Interrupted
            };
            self.summary.outcome = Some(outcome);
            self.emit(AgentStateEvent::Idle { outcome });
        }
    }

    /// Reads a partial last line and records how the run ended.
    ///
    /// The exit code only breaks a tie: it never makes a stream that did not
    /// settle a success. Where the last line raises a [`Self::question`], the
    /// end is recorded with the answer.
    pub fn finish(&mut self, exit_code: Option<i32>)
        requires
            old(self)@.question is None,
        ensures
            final(self)@ == old(self)@.ended(old(self).unread(), exit_code),
            final(self).unread() == if old(self)@.finished {
                old(self).unread()
            } else {
                Seq::empty()
            },
    {
        if self.finished {
            return;
        }
        self.finished = true;
        let mut buffer: Vec<u8> = Vec::new();
        std::mem::swap(&mut self.buffer, &mut buffer);
        let tail = decode_lossy(buffer.as_slice());
        let tail = trim(tail.as_str());
        if !tail.is_empty() {
            self.process_line(tail);
        }
        if self.question.is_some() {
            self.concluding = Some(exit_code);
        } else {
            self.conclude(exit_code);
        }
        self.buffer = Vec::new();
    }
}

} // verus!
