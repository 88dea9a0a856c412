//! Permissive parser for a custom agent's JSONL output.
//!
//! It makes no assumption about a CLI's schema: any JSON object per line is
//! taken. A top-level string `text` or `content` is answer text, a row of a tool
//! type is a tool invocation, a row of type `error` is an error. Everything else,
//! a row with an empty text among it, is kept verbatim as an opaque tool call, so
//! that no row is dropped silently.
use crate::agents::agent;
use crate::agents::agent::{extract_session_id, SessionIdProbe};
use crate::json;
use crate::json::{
    copied, copied_or_null, find_str, find_value, is_true, parse, read_str, Json, JsonView,
};
use crate::lines;
use crate::lines::{decode_lossy, feed, LineReader};
use crate::model;
use crate::model::{
    exited_badly, record, record_call, AgentStateEvent, EventView, IdleOutcome, MessageRole,
    RunSummary, SummaryView, ToolCall, ToolCallView,
};
use crate::text;
use crate::text::{str_eq, trim};
use vstd::prelude::*;

verus! {

/// The name of this output format.
pub const PLAIN_JSONL: &'static str = "plain-jsonl";

/// The keys under which a row names its tool call.
pub open spec fn tool_id_keys() -> Seq<Seq<char>> {
    seq!["id"@, "tool_use_id"@, "tool_call_id"@, "callID"@, "call_id"@]
}

/// The keys under which a row names its tool.
pub open spec fn tool_name_keys() -> Seq<Seq<char>> {
    seq!["name"@, "tool"@, "tool_name"@]
}

/// The keys under which a row holds a tool's input.
pub open spec fn tool_input_keys() -> Seq<Seq<char>> {
    seq!["input"@, "arguments"@, "parameters"@]
}

/// The keys under which a row holds a tool's output.
pub open spec fn tool_output_keys() -> Seq<Seq<char>> {
    seq!["output"@, "result"@, "content"@]
}

/// Whether `kind` is the type of a tool row.
pub open spec fn tool_kind(kind: Seq<char>) -> bool {
    kind == "tool_use"@ || kind == "tool_call"@ || kind == "tool_result"@ || kind == "tool"@
}

/// Whether `kind` is the type of a tool row.
pub fn is_tool_kind(kind: &str) -> (yes: bool)
    ensures
        yes == tool_kind(kind@),
{
    str_eq(kind, "tool_use") || str_eq(kind, "tool_call") || str_eq(kind, "tool_result") || str_eq(
        kind,
        "tool",
    )
}

/// The string under the first key that holds one, unless it is empty.
pub open spec fn first_text(v: JsonView, keys: Seq<Seq<char>>) -> Option<Seq<char>> {
    match json::str_among(v, keys, 0) {
        Some(s) => if s.len() > 0 {
            Some(s)
        } else {
            None
        },
        None => None,
    }
}

/// The string under the first key that holds one, unless it is empty.
fn first_str<'a>(v: &'a Json, keys: &[&str]) -> (s: Option<&'a str>)
    ensures
        json::opt_str(s) == first_text(v@, json::key_views(keys@)),
{
    match find_str(v, keys) {
        Some(s) => if s.is_empty() {
            None
        } else {
            Some(s)
        },
        None => None,
    }
}

/// An optional text, or `b`.
pub open spec fn text_or(a: Option<Seq<char>>, b: Seq<char>) -> Seq<char> {
    match a {
        Some(a) => a,
        None => b,
    }
}

/// The first top-level string `text` or `content`.
pub open spec fn text_in(v: JsonView) -> Option<Seq<char>> {
    json::first_of(json::str_of(v.get("text"@)), json::str_of(v.get("content"@)))
}

/// The first top-level string `text` or `content`.
fn top_level_text(v: &Json) -> (s: Option<&str>)
    ensures
        json::opt_str(s) == text_in(v@),
{
    match read_str(v.get("text")) {
        Some(s) => Some(s),
        None => read_str(v.get("content")),
    }
}

/// Who wrote a row; an assistant where it does not say.
pub open spec fn role_in(v: JsonView) -> MessageRole {
    let role = json::str_of(v.get("role"@));
    if role == Some("system"@) {
        MessageRole::System
    } else if role == Some("user"@) {
        MessageRole::User
    } else if role == Some("tool"@) {
        MessageRole::Tool
    } else {
        MessageRole::Assistant
    }
}

/// Who wrote a row.
fn role_from(v: &Json) -> (role: MessageRole)
    ensures
        role == role_in(v@),
{
    match read_str(v.get("role")) {
        Some(role) => if str_eq(role, "system") {
            MessageRole::System
        } else if str_eq(role, "user") {
            MessageRole::User
        } else if str_eq(role, "tool") {
            MessageRole::Tool
        } else {
            MessageRole::Assistant
        },
        None => MessageRole::Assistant,
    }
}

/// Whether a tool row marks itself as failed.
pub open spec fn marks_failure(v: JsonView) -> bool {
    let status = json::str_of(v.get("status"@));
    ||| json::bool_of(v.get("is_error"@)) == Some(true)
    ||| status == Some("error"@)
    ||| status == Some("failed"@)
    ||| status == Some("failure"@)
    ||| match v.get("error"@) {
        None => false,
        Some(JsonView::Null) => false,
        Some(JsonView::Bool(failed)) => failed,
        Some(_) => true,
    }
}

/// Whether a tool row marks itself as failed.
fn tool_failed(v: &Json) -> (failed: bool)
    ensures
        failed == marks_failure(v@),
{
    if is_true(v.get("is_error")) {
        return true;
    }
    if let Some(status) = read_str(v.get("status")) {
        if str_eq(status, "error") || str_eq(status, "failed") || str_eq(status, "failure") {
            return true;
        }
    }
    match v.get("error") {
        None => false,
        Some(Json::Null) => false,
        Some(Json::Bool(failed)) => *failed,
        Some(_) => true,
    }
}

/// What a stream has shown so far.
pub struct PlainState {
    /// The key under which a row carries the session's id.
    pub probe: Option<Seq<char>>,
    pub events: Seq<EventView>,
    pub summary: SummaryView,
    /// An object was seen.
    pub saw_structured: bool,
    pub saw_error: bool,
    pub finished: bool,
}

impl PlainState {
    /// The state before the first byte.
    pub open spec fn start(probe: Option<Seq<char>>) -> PlainState {
        PlainState {
            probe,
            events: Seq::empty(),
            summary: model::blank_summary(),
            saw_structured: false,
            saw_error: false,
            finished: false,
        }
    }

    pub open spec fn emit(self, event: EventView) -> PlainState {
        PlainState { events: self.events.push(event), ..self }
    }

    /// Announces the session with the first row that carries its id.
    pub open spec fn announce(self, value: JsonView) -> PlainState {
        let id = match self.probe {
            Some(key) => agent::session_id_in(value, key),
            None => None,
        };
        if self.summary.session_id is None && id is Some {
            PlainState {
                summary: SummaryView { session_id: id, ..self.summary },
                ..self.emit(EventView::Session { session_id: id, title: None, model: None })
            }
        } else {
            self
        }
    }

    pub open spec fn on_error(self, value: JsonView) -> PlainState {
        let message = text_or(
            json::str_among(value, seq!["message"@, "error"@, "text"@], 0),
            "agent error"@,
        );
        PlainState {
            saw_error: true,
            summary: SummaryView { error: Some(message), ..self.summary },
            ..self.emit(EventView::Error { message })
        }
    }

    pub open spec fn on_tool(self, value: JsonView, kind: Seq<char>) -> PlainState {
        let id = text_or(first_text(value, tool_id_keys()), Seq::empty());
        let name = text_or(first_text(value, tool_name_keys()), kind);
        let input = json::or_null(json::value_among(value, tool_input_keys(), 0));
        let output = json::value_among(value, tool_output_keys(), 0);
        let ok = !marks_failure(value);
        PlainState {
            summary: SummaryView {
                tool_calls: self.summary.tool_calls.push(
                    ToolCallView { id, name, input, ok, output },
                ),
                ..self.summary
            },
            ..self.emit(EventView::ToolStarted { id, name, input }).emit(
                EventView::ToolFinished { id, name, ok, output },
            )
        }
    }

    /// Keeps a row that is nothing else, verbatim.
    pub open spec fn keep(self, value: JsonView, kind: Seq<char>) -> PlainState {
        let name = if kind.len() > 0 {
            kind
        } else {
            text_or(first_text(value, seq!["name"@, "role"@]), "opaque"@)
        };
        PlainState {
            summary: SummaryView {
                tool_calls: self.summary.tool_calls.push(
                    ToolCallView {
                        id: text_or(first_text(value, tool_id_keys()), Seq::empty()),
                        name,
                        input: value,
                        ok: false,
                        output: None,
                    },
                ),
                ..self.summary
            },
            ..self
        }
    }

    /// What a row of type `kind` tells beside the session's id.
    pub open spec fn on_row(self, kind: Seq<char>, value: JsonView) -> PlainState {
        if kind == "error"@ {
            self.on_error(value)
        } else if tool_kind(kind) {
            self.on_tool(value, kind)
        } else {
            match text_in(value) {
                Some(piece) => if piece.len() > 0 {
                    PlainState {
                        summary: SummaryView { text: self.summary.text + piece, ..self.summary },
                        ..self.emit(EventView::TextDelta { role: role_in(value), text: piece })
                    }
                } else {
                    self.keep(value, kind)
                },
                None => self.keep(value, kind),
            }
        }
    }

    /// The state after one row.
    #[verifier::opaque]
    pub open spec fn on_record(self, value: JsonView) -> PlainState {
        if value is Object {
            PlainState { saw_structured: true, ..self }.announce(value).on_row(
                value.text("type"@),
                value,
            )
        } else {
            self
        }
    }

    /// The state after one line; a line that is no JSON changes nothing.
    pub open spec fn on_line(self, line: Seq<char>) -> PlainState {
        let content = text::trimmed(line);
        if content.len() == 0 {
            self
        } else {
            match json::parsed_text(content) {
                Some(value) => self.on_record(value),
                None => self,
            }
        }
    }

    /// The state at the end of a stream whose process ended with `exit_code`. The
    /// format has no mark for completion: rows and a clean exit are a success.
    pub open spec fn concluded(self, exit_code: Option<i32>) -> PlainState {
        if !self.saw_structured {
            self
        } else {
            let outcome = if self.saw_error || model::bad_exit(exit_code) {
                IdleOutcome::Failed
            } else {
                IdleOutcome::Succeeded
            };
            PlainState {
                summary: SummaryView { outcome: Some(outcome), ..self.summary },
                ..self.emit(EventView::Idle { outcome })
            }
        }
    }

    /// The state once the last bytes, `rest`, and the exit code are known.
    pub open spec fn ended(self, rest: Seq<u8>, exit_code: Option<i32>) -> PlainState {
        if self.finished {
            self
        } else {
            let done = PlainState { finished: true, ..self };
            let tail = lines::last_line(rest);
            let read = if tail.len() > 0 {
                done.on_line(tail)
            } else {
                done
            };
            read.concluded(exit_code)
        }
    }
}

/// A streaming parser that is tolerant of every schema.
pub struct PlainJsonlParser {
    buffer: Vec<u8>,
    probe: Option<SessionIdProbe>,
    events: Vec<AgentStateEvent>,
    summary: RunSummary,
    saw_structured: bool,
    saw_error: bool,
    finished: bool,
}

impl View for PlainJsonlParser {
    type V = PlainState;

    closed spec fn view(&self) -> PlainState {
        PlainState {
            probe: agent::opt_probe(self.probe),
            events: model::event_views(self.events@),
            summary: self.summary@,
            saw_structured: self.saw_structured,
            saw_error: self.saw_error,
            finished: self.finished,
        }
    }
}

impl LineReader for PlainJsonlParser {
    type State = PlainState;

    open spec fn state(&self) -> PlainState {
        self@
    }

    open spec fn step(state: PlainState, line: Seq<char>) -> PlainState {
        state.on_line(line)
    }

    open spec fn stopped(state: PlainState) -> bool {
        false
    }

    fn is_stopped(&self) -> (stopped: bool) {
        false
    }

    fn process_line(&mut self, line: &str)
        ensures
            final(self).unread() == old(self).unread(),
    {
        let content = trim(line);
        if content.is_empty() {
            return;
        }
        if let Some(value) = parse(content) {
            self.process_value(&value);
        }
    }
}

impl PlainJsonlParser {
    /// The bytes that have not been read as a line yet.
    pub closed spec fn unread(&self) -> Seq<u8> {
        self.buffer@
    }

    /// A parser before the first byte.
    pub fn new(probe: Option<SessionIdProbe>) -> (parser: PlainJsonlParser)
        ensures
            parser@ == PlainState::start(agent::opt_probe(probe)),
            parser.unread() == Seq::<u8>::empty(),
    {
        let parser = PlainJsonlParser {
            buffer: Vec::new(),
            probe,
            events: Vec::new(),
            summary: RunSummary::default(),
            saw_structured: false,
            saw_error: false,
            finished: false,
        };
        assert(parser@.events == Seq::<EventView>::empty());
        parser
    }

    /// The structured result built so far.
    pub fn summary(&self) -> (summary: &RunSummary)
        ensures
            summary@ == self@.summary,
    {
        &self.summary
    }

    /// The normalized events observed so far, in order.
    pub fn events(&self) -> (events: &Vec<AgentStateEvent>)
        ensures
            model::event_views(events@) == self@.events,
    {
        &self.events
    }

    fn emit(&mut self, event: AgentStateEvent)
        ensures
            final(self)@ == old(self)@.emit(event@),
            final(self).buffer == old(self).buffer,
    {
        record(&mut self.events, event);
    }

    fn announce_session(&mut self, value: &Json)
        ensures
            final(self)@ == old(self)@.announce(value@),
            final(self).buffer == old(self).buffer,
    {
        if self.summary.session_id.is_none() {
            let id = match &self.probe {
                Some(probe) => extract_session_id(value, probe),
                None => None,
            };
            if let Some(id) = id {
                self.summary.session_id = Some(id.clone());
                self.emit(
                    AgentStateEvent::Session { session_id: Some(id), title: None, model: None },
                );
            }
        }
    }

    fn process_error(&mut self, value: &Json)
        ensures
            final(self)@ == old(self)@.on_error(value@),
            final(self).buffer == old(self).buffer,
    {
        let keys = vec!["message", "error", "text"];
        assert(json::key_views(keys@) == seq!["message"@, "error"@, "text"@]);
        let message = match find_str(value, keys.as_slice()) {
            Some(message) => message,
            None => "agent error",
        };
        self.saw_error = true;
        self.summary.error = Some(message.to_owned());
        self.emit(AgentStateEvent::Error { message: message.to_owned() });
    }

    fn process_tool(&mut self, value: &Json, kind: &str)
        ensures
            final(self)@ == old(self)@.on_tool(value@, kind@),
            final(self).buffer == old(self).buffer,
    {
        let id = tool_id(value);
        let names = vec!["name", "tool", "tool_name"];
        assert(json::key_views(names@) == tool_name_keys());
        let name = match first_str(value, names.as_slice()) {
            Some(name) => name,
            None => kind,
        };
        let inputs = vec!["input", "arguments", "parameters"];
        assert(json::key_views(inputs@) == tool_input_keys());
        let input = copied_or_null(find_value(value, inputs.as_slice()));
        let outputs = vec!["output", "result", "content"];
        assert(json::key_views(outputs@) == tool_output_keys());
        let output = find_value(value, outputs.as_slice());
        let ok = !tool_failed(value);
        record_call(
            &mut self.summary.tool_calls,
            ToolCall {
                id: id.clone(),
                name: name.to_owned(),
                input: input.clone(),
                ok,
                output: copied(output),
            },
        );
        self.emit(
            AgentStateEvent::ToolStarted { id: id.clone(), name: name.to_owned(), input },
        );
        self.emit(
            AgentStateEvent::ToolFinished { id, name: name.to_owned(), ok, output: copied(output) },
        );
    }

    fn keep_row(&mut self, value: &Json, kind: &str)
        ensures
            final(self)@ == old(self)@.keep(value@, kind@),
            final(self).buffer == old(self).buffer,
    {
        let names = vec!["name", "role"];
        assert(json::key_views(names@) == seq!["name"@, "role"@]);
        let name = if !kind.is_empty() {
            kind
        } else {
            match first_str(value, names.as_slice()) {
                Some(name) => name,
                None => "opaque",
            }
        };
        record_call(
            &mut self.summary.tool_calls,
            ToolCall {
                id: tool_id(value),
                name: name.to_owned(),
                input: value.clone(),
                ok: false,
                output: None,
            },
        );
    }

    fn process_row(&mut self, value: &Json)
        ensures
            final(self)@ == old(self)@.on_row(value@.text("type"@), value@),
            final(self).buffer == old(self).buffer,
    {
        let kind = value.text("type");
        if str_eq(kind, "error") {
            self.process_error(value);
        } else if is_tool_kind(kind) {
            self.process_tool(value, kind);
        } else {
            match top_level_text(value) {
                Some(piece) if !piece.is_empty() => {
                    self.summary.text.append(piece);
                    self.emit(
                        AgentStateEvent::TextDelta {
                            role: role_from(value),
                            text: piece.to_owned(),
                        },
                    );
                },
                _ => {
                    self.keep_row(value, kind);
                },
            }
        }
    }

    /// Reads one row of the stream.
    pub fn process_value(&mut self, value: &Json)
        ensures
            final(self)@ == old(self)@.on_record(value@),
            final(self).unread() == old(self).unread(),
    {
        reveal(PlainState::on_record);
        if value.is_object() {
            self.saw_structured = true;
            self.announce_session(value);
            self.process_row(value);
        }
    }

    /// Feeds a raw output chunk. Complete lines are read at once; a partial
    /// line is held until more bytes, or [`Self::finish`], arrive.
    pub fn push(&mut self, chunk: &[u8])
        ensures
            (final(self)@, final(self).unread()) == lines::read_lines::<PlainJsonlParser>(
                old(self)@,
                old(self).unread() + chunk@,
            ),
    {
        let mut buffer: Vec<u8> = Vec::new();
        std::mem::swap(&mut self.buffer, &mut buffer);
        feed(self, &mut buffer, chunk);
        self.buffer = buffer;
    }

    /// Reads a partial last line and records how the run ended.
    pub fn finish(&mut self, exit_code: Option<i32>)
        ensures
            final(self)@ == old(self)@.ended(old(self).unread(), exit_code),
            final(self).unread() == if old(self)@.finished {
                old(self).unread()
            } else {
                Seq::empty()
            },
    {
        if self.finished {
            return;
        }
        self.finished = true;
        let mut buffer: Vec<u8> = Vec::new();
        std::mem::swap(&mut self.buffer, &mut buffer);
        let tail = decode_lossy(buffer.as_slice());
        let tail = trim(tail.as_str());
        if !tail.is_empty() {
            self.process_line(tail);
        }
        self.buffer = Vec::new();
        self.conclude(exit_code);
    }

    fn conclude(&mut self, exit_code: Option<i32>)
        ensures
            final(self)@ == old(self)@.concluded(exit_code),
            final(self).buffer == old(self).buffer,
    {
        if !self.saw_structured {
            return;
        }
        let outcome = if self.saw_error || exited_badly(exit_code) {
            IdleOutcome::Failed
        } else {
            IdleOutcome::Succeeded
        };
        self.summary.outcome = Some(outcome);
        self.emit(AgentStateEvent::Idle { outcome });
    }
}

/// The id of a row's tool call; empty where it has none.
fn tool_id(value: &Json) -> (id: String)
    ensures
        id@ == text_or(first_text(value@, tool_id_keys()), Seq::empty()),
{
    let keys = vec!["id", "tool_use_id", "tool_call_id", "callID", "call_id"];
    assert(json::key_views(keys@) == tool_id_keys());
    match first_str(value, keys.as_slice()) {
        Some(id) => id.to_owned(),
        None => String::new(),
    }
}

/// Noise is ignored: a line that is blank, no JSON, or JSON but no object
/// leaves everything as it was.
pub proof fn law_noise_changes_nothing(s: PlainState, line: Seq<char>)
    requires
        text::trimmed(line).len() == 0 || (json::parsed_text(text::trimmed(line)) matches Some(v)
            ==> !(v is Object)),
    ensures
        s.on_line(line) == s,
{
    reveal(PlainState::on_record);
}

proof fn lemma_finished(s: PlainState, value: JsonView)
    ensures
        s.on_record(value).finished == s.finished,
{
    reveal(PlainState::on_record);
}

/// Finishing a stream twice is finishing it once.
pub proof fn law_finish_is_idempotent(
    s: PlainState,
    rest: Seq<u8>,
    exit_code: Option<i32>,
    rest_again: Seq<u8>,
    exit_code_again: Option<i32>,
)
    ensures
        s.ended(rest, exit_code).ended(rest_again, exit_code_again) == s.ended(
            rest,
            exit_code,
        ),
{
    let done = PlainState { finished: true, ..s };
    if let Some(value) = json::parsed_text(text::trimmed(lines::last_line(rest))) {
        lemma_finished(done, value);
    }
}

/// No row is dropped silently: every object adds an event or a tool call.
pub proof fn law_no_row_is_dropped(s: PlainState, value: JsonView)
    requires
        value is Object,
    ensures
        s.on_record(value).events.len() + s.on_record(value).summary.tool_calls.len()
            > s.events.len() + s.summary.tool_calls.len(),
{
    reveal(PlainState::on_record);
}

/// An object that is neither an error nor a tool row, and that carries no text or an
/// empty one, is kept as it stands.
pub proof fn law_unknown_rows_are_kept(s: PlainState, value: JsonView)
    requires
        value is Object,
        value.text("type"@) != "error"@,
        !tool_kind(value.text("type"@)),
        text_in(value) matches Some(piece) ==> piece.len() == 0,
    ensures
        s.on_record(value).summary.tool_calls.drop_last() == s.summary.tool_calls,
        s.on_record(value).summary.tool_calls.len() == s.summary.tool_calls.len() + 1,
        s.on_record(value).summary.tool_calls.last().input == value,
        !s.on_record(value).summary.tool_calls.last().ok,
        s.on_record(value).summary.tool_calls.last().output is None,
{
    reveal(PlainState::on_record);
}

/// Rows and a clean exit are a success; an error row or a failing exit is a
/// failure; a stream without a single row has no outcome.
pub proof fn law_end(s: PlainState, exit_code: Option<i32>)
    ensures
        s.concluded(exit_code).summary.outcome == if !s.saw_structured {
            s.summary.outcome
        } else if s.saw_error || model::bad_exit(exit_code) {
            Some(IdleOutcome::Failed)
        } else {
            Some(IdleOutcome::Succeeded)
        },
{
}

/// The summary's text is the told pieces, one behind the other.
pub proof fn law_summary_retells_the_stream(s: PlainState, value: JsonView)
    requires
        model::retells(s.summary, s.events),
    ensures
        model::retells(s.on_record(value).summary, s.on_record(value).events),
{
    broadcast use crate::model::lemma_one_more_event;

    reveal(PlainState::on_record);
}

} // verus!
