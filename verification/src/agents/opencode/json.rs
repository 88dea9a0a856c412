//! Tolerant parser for `opencode run --format json` output.
//!
//! opencode writes one JSON object per line, each with a top-level `sessionID`
//! and `type`. Lines that are no JSON are skipped, known rows become
//! [`AgentStateEvent`]s, and the result is folded into a [`RunSummary`]. A stream
//! without a final step counts as interrupted, not as a success.
use crate::agents::agent;
use crate::agents::agent::{extract_session_id, SessionIdProbe};
use crate::json;
use crate::json::{
    copied, copied_or_null, parse, read_count, read_double, read_str, read_text, Json, JsonView,
};
use crate::lines;
use crate::lines::{decode_lossy, feed, LineReader};
use crate::model;
use crate::model::{
    exited_badly, record, record_call, reported_cost, AgentStateEvent, AgentUsage, EventView,
    IdleOutcome, MessageRole, RunSummary, SummaryView, ToolCall, ToolCallView,
};
use crate::text;
use crate::text::{str_eq, trim};
use vstd::prelude::*;

verus! {

/// What a stream has shown so far.
pub struct OpenCodeState {
    /// The key under which a row carries the session's id.
    pub probe: Option<Seq<char>>,
    pub events: Seq<EventView>,
    pub summary: SummaryView,
    /// A row of a known type was seen.
    pub saw_structured: bool,
    /// A step that ended the turn was seen.
    pub saw_final_step: bool,
    pub saw_error: bool,
    pub finished: bool,
}

/// The usage that a finished step reports.
pub open spec fn step_usage(part: Option<JsonView>) -> AgentUsage {
    let tokens = match part {
        Some(part) => json::or_null(part.get("tokens"@)),
        None => JsonView::Null,
    };
    AgentUsage {
        input_tokens: tokens.count("input"@),
        output_tokens: tokens.count("output"@),
        reasoning_tokens: tokens.count("reasoning"@),
        cache_read_tokens: json::count_of(tokens.get2("cache"@, "read"@)),
        cache_write_tokens: json::count_of(tokens.get2("cache"@, "write"@)),
        cost_usd: match part {
            Some(part) => model::reported(json::double_of(part.get("cost"@))),
            None => None,
        },
    }
}

impl OpenCodeState {
    /// The state before the first byte.
    pub open spec fn start(probe: Option<Seq<char>>) -> OpenCodeState {
        OpenCodeState {
            probe,
            events: Seq::empty(),
            summary: model::blank_summary(),
            saw_structured: false,
            saw_final_step: false,
            saw_error: false,
            finished: false,
        }
    }

    pub open spec fn emit(self, event: EventView) -> OpenCodeState {
        OpenCodeState { events: self.events.push(event), ..self }
    }

    /// Announces the session with the first row that carries its id.
    pub open spec fn announce(self, value: JsonView) -> OpenCodeState {
        let id = match self.probe {
            Some(key) => agent::session_id_in(value, key),
            None => None,
        };
        if self.summary.session_id is None && id is Some {
            OpenCodeState {
                summary: SummaryView { session_id: id, ..self.summary },
                ..self.emit(EventView::Session { session_id: id, title: None, model: None })
            }
        } else {
            self
        }
    }

    /// A tool call, which is told once it is complete.
    pub open spec fn on_tool_use(self, value: JsonView) -> OpenCodeState {
        let part = json::or_null(value.get("part"@));
        let state = json::or_null(part.get("state"@));
        let id = part.text("callID"@);
        let name = part.text("tool"@);
        let input = json::or_null(state.get("input"@));
        let ok = state.text("status"@) == "completed"@;
        let output = json::first_of(
            state.get("output"@),
            json::first_of(state.get2("metadata"@, "output"@), state.get("error"@)),
        );
        OpenCodeState {
            summary: SummaryView {
                tool_calls: self.summary.tool_calls.push(
                    ToolCallView { id, name, input, ok, output },
                ),
                ..self.summary
            },
            ..self.emit(EventView::ToolStarted { id, name, input }).emit(
                EventView::ToolFinished { id, name, ok, output },
            )
        }
    }

    pub open spec fn on_step_finish(self, value: JsonView) -> OpenCodeState {
        let part = value.get("part"@);
        let usage = step_usage(part);
        let stops = match part {
            Some(part) => json::str_of(part.get("reason"@)) == Some("stop"@),
            None => false,
        };
        OpenCodeState {
            saw_final_step: self.saw_final_step || stops,
            summary: SummaryView { usage: self.summary.usage.merged(usage), ..self.summary },
            ..self.emit(EventView::Usage { usage })
        }
    }

    pub open spec fn on_error(self, value: JsonView) -> OpenCodeState {
        let message = json::non_empty_or(
            json::text_of(value.get3("error"@, "data"@, "message"@)),
            json::non_empty_or(json::text_of(value.get2("error"@, "name"@)), "agent error"@),
        );
        OpenCodeState {
            saw_error: true,
            summary: SummaryView { error: Some(message), ..self.summary },
            ..self.emit(EventView::Error { message })
        }
    }

    /// What a row of type `kind` tells beside the session's id.
    pub open spec fn on_row(self, kind: Seq<char>, value: JsonView) -> OpenCodeState {
        let known = OpenCodeState { saw_structured: true, ..self };
        let piece = json::text_of(value.get2("part"@, "text"@));
        if kind == "step_start"@ {
            known.emit(EventView::TurnStarted)
        } else if kind == "text"@ {
            if piece.len() > 0 {
                OpenCodeState {
                    summary: SummaryView { text: known.summary.text + piece, ..known.summary },
                    ..known.emit(EventView::TextDelta { role: MessageRole::Assistant, text: piece })
                }
            } else {
                known
            }
        } else if kind == "reasoning"@ {
            if piece.len() > 0 {
                OpenCodeState {
                    summary: SummaryView {
                        reasoning: known.summary.reasoning + piece,
                        ..known.summary
                    },
                    ..known.emit(EventView::ReasoningDelta { text: piece })
                }
            } else {
                known
            }
        } else if kind == "tool_use"@ {
            known.on_tool_use(value)
        } else if kind == "step_finish"@ {
            known.on_step_finish(value)
        } else if kind == "error"@ {
            known.on_error(value)
        } else {
            self
        }
    }

    /// The state after one row.
    #[verifier::opaque]
    pub open spec fn on_record(self, value: JsonView) -> OpenCodeState {
        if value is Object {
            self.announce(value).on_row(value.text("type"@), value)
        } else {
            self
        }
    }

    /// The state after one line; a line that is no JSON changes nothing.
    pub open spec fn on_line(self, line: Seq<char>) -> OpenCodeState {
        let content = text::trimmed(line);
        if content.len() == 0 {
            self
        } else {
            match json::parsed_text(content) {
                Some(value) => self.on_record(value),
                None => self,
            }
        }
    }

    /// The state at the end of a stream whose process ended with `exit_code`.
    pub open spec fn concluded(self, exit_code: Option<i32>) -> OpenCodeState {
        if !self.saw_structured {
            self
        } else {
            let outcome = if self.saw_error || model::bad_exit(exit_code) {
                IdleOutcome::Failed
            } else if self.saw_final_step {
                IdleOutcome::Succeeded
            } else {
                IdleOutcome::Interrupted
            };
            OpenCodeState {
                summary: SummaryView { outcome: Some(outcome), ..self.summary },
                ..self.emit(EventView::Idle { outcome })
            }
        }
    }

    /// The state once the last bytes, `rest`, and the exit code are known.
    pub open spec fn ended(self, rest: Seq<u8>, exit_code: Option<i32>) -> OpenCodeState {
        if self.finished {
            self
        } else {
            let done = OpenCodeState { finished: true, ..self };
            let tail = lines::last_line(rest);
            let read = if tail.len() > 0 {
                done.on_line(tail)
            } else {
                done
            };
            read.concluded(exit_code)
        }
    }
}

/// A streaming, noise-tolerant parser.
pub struct OpenCodeJsonlParser {
    buffer: Vec<u8>,
    probe: Option<SessionIdProbe>,
    events: Vec<AgentStateEvent>,
    summary: RunSummary,
    saw_structured: bool,
    saw_final_step: bool,
    saw_error: bool,
    finished: bool,
}

impl View for OpenCodeJsonlParser {
    type V = OpenCodeState;

    closed spec fn view(&self) -> OpenCodeState {
        OpenCodeState {
            probe: agent::opt_probe(self.probe),
            events: model::event_views(self.events@),
            summary: self.summary@,
            saw_structured: self.saw_structured,
            saw_final_step: self.saw_final_step,
            saw_error: self.saw_error,
            finished: self.finished,
        }
    }
}

impl LineReader for OpenCodeJsonlParser {
    type State = OpenCodeState;

    open spec fn state(&self) -> OpenCodeState {
        self@
    }

    open spec fn step(state: OpenCodeState, line: Seq<char>) -> OpenCodeState {
        state.on_line(line)
    }

    open spec fn stopped(state: OpenCodeState) -> bool {
        false
    }

    fn is_stopped(&self) -> (stopped: bool) {
        false
    }

    fn process_line(&mut self, line: &str)
        ensures
            final(self).unread() == old(self).unread(),
    {
        let content = trim(line);
        if content.is_empty() {
            return;
        }
        if let Some(value) = parse(content) {
            self.process_value(&value);
        }
    }
}

impl OpenCodeJsonlParser {
    /// The bytes that have not been read as a line yet.
    pub closed spec fn unread(&self) -> Seq<u8> {
        self.buffer@
    }

    /// A parser before the first byte.
    pub fn new(probe: Option<SessionIdProbe>) -> (parser: OpenCodeJsonlParser)
        ensures
            parser@ == OpenCodeState::start(agent::opt_probe(probe)),
            parser.unread() == Seq::<u8>::empty(),
    {
        let parser = OpenCodeJsonlParser {
            buffer: Vec::new(),
            probe,
            events: Vec::new(),
            summary: RunSummary::default(),
            saw_structured: false,
            saw_final_step: false,
            saw_error: false,
            finished: false,
        };
        assert(parser@.events == Seq::<EventView>::empty());
        parser
    }

    /// The structured result built so far.
    pub fn summary(&self) -> (summary: &RunSummary)
        ensures
            summary@ == self@.summary,
    {
        &self.summary
    }

    /// The normalized events observed so far, in order.
    pub fn events(&self) -> (events: &Vec<AgentStateEvent>)
        ensures
            model::event_views(events@) == self@.events,
    {
        &self.events
    }

    fn emit(&mut self, event: AgentStateEvent)
        ensures
            final(self)@ == old(self)@.emit(event@),
            final(self).buffer == old(self).buffer,
    {
        record(&mut self.events, event);
    }

    fn announce_session(&mut self, value: &Json)
        ensures
            final(self)@ == old(self)@.announce(value@),
            final(self).buffer == old(self).buffer,
    {
        if self.summary.session_id.is_none() {
            let id = match &self.probe {
                Some(probe) => extract_session_id(value, probe),
                None => None,
            };
            if let Some(id) = id {
                self.summary.session_id = Some(id.clone());
                self.emit(
                    AgentStateEvent::Session { session_id: Some(id), title: None, model: None },
                );
            }
        }
    }

    fn process_tool_use(&mut self, value: &Json)
        ensures
            final(self)@ == old(self)@.on_tool_use(value@),
            final(self).buffer == old(self).buffer,
    {
        let nothing = Json::Null;
        let part = match value.get("part") {
            Some(part) => part,
            None => &nothing,
        };
        let state = match part.get("state") {
            Some(state) => state,
            None => &nothing,
        };
        let id = part.text("callID");
        let name = part.text("tool");
        let input = copied_or_null(state.get("input"));
        let ok = str_eq(state.text("status"), "completed");
        let output = match state.get("output") {
            Some(output) => Some(output),
            None => match state.get2("metadata", "output") {
                Some(output) => Some(output),
                None => state.get("error"),
            },
        };
        self.emit(
            AgentStateEvent::ToolStarted {
                id: id.to_owned(),
                name: name.to_owned(),
                input: input.clone(),
            },
        );
        self.emit(
            AgentStateEvent::ToolFinished {
                id: id.to_owned(),
                name: name.to_owned(),
                ok,
                output: copied(output),
            },
        );
        record_call(
            &mut self.summary.tool_calls,
            ToolCall {
                id: id.to_owned(),
                name: name.to_owned(),
                input,
                ok,
                output: copied(output),
            },
        );
    }

    fn process_step_finish(&mut self, value: &Json)
        ensures
            final(self)@ == old(self)@.on_step_finish(value@),
            final(self).buffer == old(self).buffer,
    {
        let nothing = Json::Null;
        let part = match value.get("part") {
            Some(part) => part,
            None => &nothing,
        };
        if let Some(reason) = read_str(part.get("reason")) {
            if str_eq(reason, "stop") {
                self.saw_final_step = true;
            }
        }
        let tokens = match part.get("tokens") {
            Some(tokens) => tokens,
            None => &nothing,
        };
        let usage = AgentUsage {
            input_tokens: tokens.count("input"),
            output_tokens: tokens.count("output"),
            reasoning_tokens: tokens.count("reasoning"),
            cache_read_tokens: read_count(tokens.get2("cache", "read")),
            cache_write_tokens: read_count(tokens.get2("cache", "write")),
            cost_usd: reported_cost(read_double(part.get("cost"))),
        };
        self.summary.usage.merge(&usage);
        self.emit(AgentStateEvent::Usage { usage });
    }

    fn process_error(&mut self, value: &Json)
        ensures
            final(self)@ == old(self)@.on_error(value@),
            final(self).buffer == old(self).buffer,
    {
        let told = read_text(value.get3("error", "data", "message"));
        let name = read_text(value.get2("error", "name"));
        let message = if !told.is_empty() {
            told
        } else if !name.is_empty() {
            name
        } else {
            "agent error"
        };
        self.saw_error = true;
        self.summary.error = Some(message.to_owned());
        self.emit(AgentStateEvent::Error { message: message.to_owned() });
    }

    fn process_row(&mut self, value: &Json)
        ensures
            final(self)@ == old(self)@.on_row(value@.text("type"@), value@),
            final(self).buffer == old(self).buffer,
    {
        let kind = value.text("type");
        let piece = read_text(value.get2("part", "text"));
        if str_eq(kind, "step_start") {
            self.saw_structured = true;
            self.emit(AgentStateEvent::TurnStarted);
        } else if str_eq(kind, "text") {
            self.saw_structured = true;
            if !piece.is_empty() {
                self.summary.text.append(piece);
                self.emit(
                    AgentStateEvent::TextDelta {
                        role: MessageRole::Assistant,
                        text: piece.to_owned(),
                    },
                );
            }
        } else if str_eq(kind, "reasoning") {
            self.saw_structured = true;
            if !piece.is_empty() {
                self.summary.reasoning.append(piece);
                self.emit(AgentStateEvent::ReasoningDelta { text: piece.to_owned() });
            }
        } else if str_eq(kind, "tool_use") {
            self.saw_structured = true;
            self.process_tool_use(value);
        } else if str_eq(kind, "step_finish") {
            self.saw_structured = true;
            self.process_step_finish(value);
        } else if str_eq(kind, "error") {
            self.saw_structured = true;
            self.process_error(value);
        }
    }

    /// Reads one row of the stream.
    pub fn process_value(&mut self, value: &Json)
        ensures
            final(self)@ == old(self)@.on_record(value@),
            final(self).unread() == old(self).unread(),
    {
        reveal(OpenCodeState::on_record);
        if value.is_object() {
            self.announce_session(value);
            self.process_row(value);
        }
    }

    /// Feeds a raw output chunk. Complete lines are read at once; a partial
    /// line is held until more bytes, or [`Self::finish`], arrive.
    pub fn push(&mut self, chunk: &[u8])
        ensures
            (final(self)@, final(self).unread()) == lines::read_lines::<OpenCodeJsonlParser>(
                old(self)@,
                old(self).unread() + chunk@,
            ),
    {
        let mut buffer: Vec<u8> = Vec::new();
        std::mem::swap(&mut self.buffer, &mut buffer);
        feed(self, &mut buffer, chunk);
        self.buffer = buffer;
    }

    /// Reads a partial last line and records how the run ended. The exit code
    /// only breaks a tie: it never makes a stream without a final step a success.
    pub fn finish(&mut self, exit_code: Option<i32>)
        ensures
            final(self)@ == old(self)@.ended(old(self).unread(), exit_code),
            final(self).unread() == if old(self)@.finished {
                old(self).unread()
            } else {
                Seq::empty()
            },
    {
        if self.finished {
            return;
        }
        self.finished = true;
        let mut buffer: Vec<u8> = Vec::new();
        std::mem::swap(&mut self.buffer, &mut buffer);
        let tail = decode_lossy(buffer.as_slice());
        let tail = trim(tail.as_str());
        if !tail.is_empty() {
            self.process_line(tail);
        }
        self.buffer = Vec::new();
        self.conclude(exit_code);
    }

    fn conclude(&mut self, exit_code: Option<i32>)
        ensures
            final(self)@ == old(self)@.concluded(exit_code),
            final(self).buffer == old(self).buffer,
    {
        if !self.saw_structured {
            return;
        }
        let outcome = if self.saw_error || exited_badly(exit_code) {
            IdleOutcome::Failed
        } else if self.saw_final_step {
            IdleOutcome::Succeeded
        } else {
            IdleOutcome::Interrupted
        };
        self.summary.outcome = Some(outcome);
        self.emit(AgentStateEvent::Idle { outcome });
    }
}

} // verus!
