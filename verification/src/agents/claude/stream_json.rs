//! Tolerant parser for `--output-format stream-json`.
//!
//! One JSON row per line: a `system` header, `stream_event` deltas, completed
//! `assistant` and `user` messages, and a final `result`. Rows that are no JSON
//! or of no known type are ignored.
use crate::json;
use crate::json::{
    copied, copied_or_null, is_true, owned, parse, read_count, read_double, read_str, Json,
    JsonView,
};
use crate::lines;
use crate::lines::{decode_lossy, feed, LineReader};
use crate::model;
use crate::model::{
    exited_badly, record, record_call, reported_cost, AgentStateEvent, AgentUsage, EventView,
    IdleOutcome, MessageRole, RunSummary, SummaryView, ToolCall, ToolCallView,
};
use crate::table;
use crate::table::Table;
use crate::text;
use crate::text::{str_eq, trim};
use vstd::prelude::*;

verus! {

/// What a stream has shown so far.
pub struct ClaudeState {
    pub events: Seq<EventView>,
    pub summary: SummaryView,
    /// A row of a known type was seen.
    pub saw_structured: bool,
    /// Text came in pieces, so completed blocks would repeat it.
    pub saw_partial: bool,
    /// A turn is in flight.
    pub in_turn: bool,
    /// The session has been announced.
    pub announced_session: bool,
    pub saw_result: bool,
    pub saw_error: bool,
    pub finished: bool,
    /// The tool's name under each call's id.
    pub tool_names: Map<Seq<char>, Seq<char>>,
    /// The position in the summary under the id of each call without a result.
    pub pending_tools: Map<Seq<char>, usize>,
}

impl ClaudeState {
    /// The state before the first byte.
    pub open spec fn start() -> ClaudeState {
        ClaudeState {
            events: Seq::empty(),
            summary: model::blank_summary(),
            saw_structured: false,
            saw_partial: false,
            in_turn: false,
            announced_session: false,
            saw_result: false,
            saw_error: false,
            finished: false,
            tool_names: Map::empty(),
            pending_tools: Map::empty(),
        }
    }

    pub open spec fn emit(self, event: EventView) -> ClaudeState {
        ClaudeState { events: self.events.push(event), saw_structured: true, ..self }
    }

    /// Marks the begin of a turn, once per turn.
    pub open spec fn begin_turn(self) -> ClaudeState {
        if self.in_turn {
            self
        } else {
            ClaudeState {
                in_turn: true,
                events: self.events.push(EventView::TurnStarted),
                ..self
            }
        }
    }

    /// Announces the session, once.
    pub open spec fn announce(self, session_id: Seq<char>, model: Option<Seq<char>>) -> ClaudeState {
        if self.announced_session || session_id.len() == 0 {
            self
        } else {
            ClaudeState {
                announced_session: true,
                summary: SummaryView { session_id: Some(session_id), ..self.summary },
                events: self.events.push(
                    EventView::Session { session_id: Some(session_id), title: None, model },
                ),
                ..self
            }
        }
    }

    /// Adds a piece of the answer.
    pub open spec fn say(self, piece: Seq<char>) -> ClaudeState {
        ClaudeState {
            summary: SummaryView { text: self.summary.text + piece, ..self.summary },
            ..self.emit(EventView::TextDelta { role: MessageRole::Assistant, text: piece })
        }
    }

    /// Adds a piece of the reasoning.
    pub open spec fn think(self, piece: Seq<char>) -> ClaudeState {
        ClaudeState {
            summary: SummaryView { reasoning: self.summary.reasoning + piece, ..self.summary },
            ..self.emit(EventView::ReasoningDelta { text: piece })
        }
    }

    pub open spec fn on_system(self, value: JsonView) -> ClaudeState {
        let subtype = value.text("subtype"@);
        if subtype == "init"@ {
            ClaudeState { saw_structured: true, ..self }.announce(
                value.text("session_id"@),
                json::str_of(value.get("model"@)),
            )
        } else if subtype == "api_retry"@ {
            // A retry is told, but does not make the run fail.
            let message = match json::first_of(
                json::str_of(value.get("error"@)),
                json::str_of(value.get("message"@)),
            ) {
                Some(message) => message,
                None => "api retry"@,
            };
            self.emit(EventView::Error { message })
        } else {
            self
        }
    }

    pub open spec fn on_delta(self, delta: JsonView) -> ClaudeState {
        let kind = delta.text("type"@);
        let spoken = delta.text("text"@);
        let thought = delta.text("thinking"@);
        if kind == "text_delta"@ && spoken.len() > 0 {
            ClaudeState { saw_partial: true, ..self.say(spoken) }
        } else if kind == "thinking_delta"@ && thought.len() > 0 {
            ClaudeState { saw_partial: true, ..self.think(thought) }
        } else {
            self
        }
    }

    pub open spec fn on_stream_event(self, value: JsonView) -> ClaudeState {
        match value.get("event"@) {
            Some(event) => {
                let kind = event.text("type"@);
                if kind == "message_start"@ {
                    ClaudeState { saw_structured: true, ..self }.begin_turn()
                } else if kind == "content_block_delta"@ {
                    match event.get("delta"@) {
                        Some(delta) => self.on_delta(delta),
                        None => self,
                    }
                } else {
                    self
                }
            },
            None => self,
        }
    }

    /// One block of a completed assistant message. Text and reasoning that came
    /// in pieces before are not told again.
    pub open spec fn on_block(self, block: JsonView) -> ClaudeState {
        let kind = block.text("type"@);
        let busy = ClaudeState { saw_structured: true, ..self }.begin_turn();
        if kind == "text"@ {
            let spoken = block.text("text"@);
            if spoken.len() == 0 {
                self
            } else if self.saw_partial {
                busy
            } else {
                busy.say(spoken)
            }
        } else if kind == "thinking"@ {
            let thought = block.text("thinking"@);
            if thought.len() == 0 {
                self
            } else if self.saw_partial {
                busy
            } else {
                busy.think(thought)
            }
        } else if kind == "tool_use"@ {
            let id = block.text("id"@);
            let name = block.text("name"@);
            let input = json::or_null(block.get("input"@));
            ClaudeState {
                tool_names: busy.tool_names.insert(id, name),
                pending_tools: busy.pending_tools.insert(
                    id,
                    busy.summary.tool_calls.len() as usize,
                ),
                summary: SummaryView {
                    tool_calls: busy.summary.tool_calls.push(
                        ToolCallView { id, name, input, ok: false, output: None },
                    ),
                    ..busy.summary
                },
                ..busy.emit(EventView::ToolStarted { id, name, input })
            }
        } else {
            self
        }
    }

    /// The blocks of an assistant message from position `from` on.
    pub open spec fn on_blocks(self, blocks: Seq<JsonView>, from: int) -> ClaudeState
        decreases blocks.len() - from,
    {
        if from < 0 || from >= blocks.len() {
            self
        } else {
            self.on_block(blocks[from]).on_blocks(blocks, from + 1)
        }
    }

    /// One block of a user message: the result of a tool call completes the
    /// call it belongs to.
    pub open spec fn on_result_block(self, block: JsonView) -> ClaudeState {
        if json::str_of(block.get("type"@)) != Some("tool_result"@) {
            self
        } else {
            let id = block.text("tool_use_id"@);
            let name = match table::lookup(self.tool_names, id) {
                Some(name) => name,
                None => Seq::empty(),
            };
            let ok = json::bool_of(block.get("is_error"@)) != Some(true);
            let output = block.get("content"@);
            let calls = self.summary.tool_calls;
            let told = match table::lookup(self.pending_tools, id) {
                Some(at) => if at < calls.len() {
                    calls.update(at as int, ToolCallView { ok, output, ..calls[at as int] })
                } else {
                    calls
                },
                None => calls.push(
                    ToolCallView { id, name, input: JsonView::Null, ok, output },
                ),
            };
            ClaudeState {
                pending_tools: self.pending_tools.remove(id),
                summary: SummaryView { tool_calls: told, ..self.summary },
                ..self.emit(EventView::ToolFinished { id, name, ok, output })
            }
        }
    }

    /// The blocks of a user message from position `from` on.
    pub open spec fn on_result_blocks(self, blocks: Seq<JsonView>, from: int) -> ClaudeState
        decreases blocks.len() - from,
    {
        if from < 0 || from >= blocks.len() {
            self
        } else {
            self.on_result_block(blocks[from]).on_result_blocks(blocks, from + 1)
        }
    }

    /// The final row: session, text, usage and outcome of the run.
    pub open spec fn on_result(self, value: JsonView) -> ClaudeState {
        let seen = ClaudeState { saw_structured: true, saw_result: true, in_turn: false, ..self };
        let known = match json::str_of(value.get("session_id"@)) {
            Some(id) => ClaudeState {
                summary: SummaryView { session_id: Some(id), ..seen.summary },
                ..seen
            }.announce(id, None),
            None => seen,
        };
        let usage = result_usage(value);
        let failed = json::bool_of(value.get("is_error"@)) == Some(true);
        ClaudeState {
            events: known.events.push(EventView::Usage { usage }),
            saw_error: known.saw_error || failed,
            summary: SummaryView {
                text: match json::str_of(value.get("result"@)) {
                    Some(text) => text,
                    None => known.summary.text,
                },
                usage: known.summary.usage.merged(usage),
                outcome: Some(
                    if failed {
                        IdleOutcome::Failed
                    } else {
                        IdleOutcome::Succeeded
                    },
                ),
                error: result_error(value),
                ..known.summary
            },
            ..known
        }
    }

    pub open spec fn on_error(self, value: JsonView) -> ClaudeState {
        let message = match json::first_of(
            json::str_of(value.get2("error"@, "message"@)),
            json::str_of(value.get("message"@)),
        ) {
            Some(message) => message,
            None => "agent error"@,
        };
        ClaudeState {
            saw_error: true,
            summary: SummaryView { error: Some(message), ..self.summary },
            ..self.emit(EventView::Error { message })
        }
    }

    /// The state after one row.
    #[verifier::opaque]
    pub open spec fn on_record(self, value: JsonView) -> ClaudeState {
        let kind = value.text("type"@);
        let blocks = json::items_of(value.get2("message"@, "content"@));
        if !(value is Object) {
            self
        } else if kind == "system"@ {
            self.on_system(value)
        } else if kind == "stream_event"@ {
            self.on_stream_event(value)
        } else if kind == "assistant"@ {
            match blocks {
                Some(blocks) => self.on_blocks(blocks, 0),
                None => self,
            }
        } else if kind == "user"@ {
            match blocks {
                Some(blocks) => self.on_result_blocks(blocks, 0),
                None => self,
            }
        } else if kind == "result"@ {
            self.on_result(value)
        } else if kind == "error"@ {
            self.on_error(value)
        } else {
            self
        }
    }

    /// The state after one line; a line that is no JSON changes nothing.
    pub open spec fn on_line(self, line: Seq<char>) -> ClaudeState {
        let content = text::trimmed(line);
        if content.len() == 0 {
            self
        } else {
            match json::parsed_text(content) {
                Some(value) => self.on_record(value),
                None => self,
            }
        }
    }

    /// The state at the end of a stream whose process ended with `exit_code`.
    pub open spec fn concluded(self, exit_code: Option<i32>) -> ClaudeState {
        if !self.saw_structured {
            self
        } else {
            let outcome = match self.summary.outcome {
                Some(outcome) => outcome,
                None => if self.saw_error || model::bad_exit(exit_code) {
                    IdleOutcome::Failed
                } else if self.saw_result {
                    IdleOutcome::Succeeded
                } else {
                    IdleOutcome::Interrupted
                },
            };
            ClaudeState {
                summary: SummaryView { outcome: Some(outcome), ..self.summary },
                ..self.emit(EventView::Idle { outcome })
            }
        }
    }

    /// The state once the last bytes, `rest`, and the exit code are known.
    pub open spec fn ended(self, rest: Seq<u8>, exit_code: Option<i32>) -> ClaudeState {
        if self.finished {
            self
        } else {
            let done = ClaudeState { finished: true, ..self };
            let tail = lines::last_line(rest);
            let read = if tail.len() > 0 {
                done.on_line(tail)
            } else {
                done
            };
            read.concluded(exit_code)
        }
    }
}

/// The usage that a final row reports.
pub open spec fn result_usage(value: JsonView) -> AgentUsage {
    AgentUsage {
        input_tokens: json::count_of(value.get2("usage"@, "input_tokens"@)),
        output_tokens: json::count_of(value.get2("usage"@, "output_tokens"@)),
        reasoning_tokens: 0,
        cache_read_tokens: json::count_of(value.get2("usage"@, "cache_read_input_tokens"@)),
        cache_write_tokens: json::count_of(value.get2("usage"@, "cache_creation_input_tokens"@)),
        cost_usd: model::reported(json::double_of(value.get("total_cost_usd"@))),
    }
}

/// The error that a final row reports: its `error`, or for a failed run the best
/// of `result`, `subtype` and a stock phrase.
pub open spec fn result_error(value: JsonView) -> Option<Seq<char>> {
    match json::str_of(value.get("error"@)) {
        Some(error) => Some(error),
        None => if json::bool_of(value.get("is_error"@)) == Some(true) {
            Some(
                json::non_empty_or(
                    value.text("result"@),
                    json::non_empty_or(value.text("subtype"@), "agent error"@),
                ),
            )
        } else {
            None
        },
    }
}

/// A streaming, noise-tolerant parser.
pub struct ClaudeStreamJsonParser {
    buffer: Vec<u8>,
    events: Vec<AgentStateEvent>,
    summary: RunSummary,
    saw_structured: bool,
    saw_partial: bool,
    in_turn: bool,
    announced_session: bool,
    saw_result: bool,
    saw_error: bool,
    finished: bool,
    tool_names: Table<String>,
    pending_tools: Table<usize>,
}

impl View for ClaudeStreamJsonParser {
    type V = ClaudeState;

    closed spec fn view(&self) -> ClaudeState {
        ClaudeState {
            events: model::event_views(self.events@),
            summary: self.summary@,
            saw_structured: self.saw_structured,
            saw_partial: self.saw_partial,
            in_turn: self.in_turn,
            announced_session: self.announced_session,
            saw_result: self.saw_result,
            saw_error: self.saw_error,
            finished: self.finished,
            tool_names: self.tool_names@,
            pending_tools: self.pending_tools@,
        }
    }
}

impl LineReader for ClaudeStreamJsonParser {
    type State = ClaudeState;

    open spec fn state(&self) -> ClaudeState {
        self@
    }

    open spec fn step(state: ClaudeState, line: Seq<char>) -> ClaudeState {
        state.on_line(line)
    }

    open spec fn stopped(state: ClaudeState) -> bool {
        false
    }

    fn is_stopped(&self) -> (stopped: bool) {
        false
    }

    fn process_line(&mut self, line: &str)
        ensures
            final(self).unread() == old(self).unread(),
    {
        let content = trim(line);
        if content.is_empty() {
            return;
        }
        if let Some(value) = parse(content) {
            self.process_value(&value);
        }
    }
}

impl ClaudeStreamJsonParser {
    /// The bytes that have not been read as a line yet.
    pub closed spec fn unread(&self) -> Seq<u8> {
        self.buffer@
    }

    /// A parser before the first byte.
    pub fn new() -> (parser: ClaudeStreamJsonParser)
        ensures
            parser@ == ClaudeState::start(),
            parser.unread() == Seq::<u8>::empty(),
    {
        let parser = ClaudeStreamJsonParser {
            buffer: Vec::new(),
            events: Vec::new(),
            summary: RunSummary::default(),
            saw_structured: false,
            saw_partial: false,
            in_turn: false,
            announced_session: false,
            saw_result: false,
            saw_error: false,
            finished: false,
            tool_names: Table::new(),
            pending_tools: Table::new(),
        };
        assert(parser@.events == Seq::<EventView>::empty());
        parser
    }

    /// The structured result built so far.
    pub fn summary(&self) -> (summary: &RunSummary)
        ensures
            summary@ == self@.summary,
    {
        &self.summary
    }

    /// The normalized events observed so far, in order.
    pub fn events(&self) -> (events: &Vec<AgentStateEvent>)
        ensures
            model::event_views(events@) == self@.events,
    {
        &self.events
    }

    fn emit(&mut self, event: AgentStateEvent)
        ensures
            final(self)@ == old(self)@.emit(event@),
            final(self).buffer == old(self).buffer,
    {
        self.saw_structured = true;
        record(&mut self.events, event);
    }

    fn start_turn(&mut self)
        ensures
            final(self)@ == (ClaudeState { saw_structured: true, ..old(self)@ }).begin_turn(),
            final(self).buffer == old(self).buffer,
    {
        self.saw_structured = true;
        if !self.in_turn {
            self.in_turn = true;
            record(&mut self.events, AgentStateEvent::TurnStarted);
        }
    }

    fn announce_session(&mut self, session_id: &str, model: Option<String>)
        ensures
            final(self)@ == old(self)@.announce(session_id@, model::opt_text(model)),
            final(self).buffer == old(self).buffer,
    {
        if self.announced_session || session_id.is_empty() {
            return;
        }
        self.announced_session = true;
        self.summary.session_id = Some(session_id.to_owned());
        record(
            &mut self.events,
            AgentStateEvent::Session {
                session_id: Some(session_id.to_owned()),
                title: None,
                model,
            },
        );
    }

    fn say(&mut self, piece: &str)
        ensures
            final(self)@ == old(self)@.say(piece@),
            final(self).buffer == old(self).buffer,
    {
        self.summary.text.append(piece);
        self.emit(
            AgentStateEvent::TextDelta { role: MessageRole::Assistant, text: piece.to_owned() },
        );
    }

    fn think(&mut self, piece: &str)
        ensures
            final(self)@ == old(self)@.think(piece@),
            final(self).buffer == old(self).buffer,
    {
        self.summary.reasoning.append(piece);
        self.emit(AgentStateEvent::ReasoningDelta { text: piece.to_owned() });
    }

    fn process_system(&mut self, value: &Json)
        ensures
            final(self)@ == old(self)@.on_system(value@),
            final(self).buffer == old(self).buffer,
    {
        let subtype = value.text("subtype");
        if str_eq(subtype, "init") {
            self.saw_structured = true;
            self.announce_session(value.text("session_id"), owned(read_str(value.get("model"))));
        } else if str_eq(subtype, "api_retry") {
            let message = match read_str(value.get("error")) {
                Some(message) => message,
                None => match read_str(value.get("message")) {
                    Some(message) => message,
                    None => "api retry",
                },
            };
            self.emit(AgentStateEvent::Error { message: message.to_owned() });
        }
    }

    fn process_stream_event(&mut self, value: &Json)
        ensures
            final(self)@ == old(self)@.on_stream_event(value@),
            final(self).buffer == old(self).buffer,
    {
        if let Some(event) = value.get("event") {
            let kind = event.text("type");
            if str_eq(kind, "message_start") {
                self.start_turn();
            } else if str_eq(kind, "content_block_delta") {
                if let Some(delta) = event.get("delta") {
                    self.process_delta(delta);
                }
            }
        }
    }

    fn process_delta(&mut self, delta: &Json)
        ensures
            final(self)@ == old(self)@.on_delta(delta@),
            final(self).buffer == old(self).buffer,
    {
        let kind = delta.text("type");
        let spoken = delta.text("text");
        let thought = delta.text("thinking");
        if str_eq(kind, "text_delta") && !spoken.is_empty() {
            self.say(spoken);
            self.saw_partial = true;
        } else if str_eq(kind, "thinking_delta") && !thought.is_empty() {
            self.think(thought);
            self.saw_partial = true;
        }
    }

    fn process_block(&mut self, block: &Json)
        ensures
            final(self)@ == old(self)@.on_block(block@),
            final(self).buffer == old(self).buffer,
    {
        let kind = block.text("type");
        if str_eq(kind, "text") {
            let spoken = block.text("text");
            if !spoken.is_empty() {
                self.start_turn();
                if !self.saw_partial {
                    self.say(spoken);
                }
            }
        } else if str_eq(kind, "thinking") {
            let thought = block.text("thinking");
            if !thought.is_empty() {
                self.start_turn();
                if !self.saw_partial {
                    self.think(thought);
                }
            }
        } else if str_eq(kind, "tool_use") {
            self.start_turn();
            let id = block.text("id");
            let name = block.text("name");
            let input = copied_or_null(block.get("input"));
            self.tool_names.insert(id.to_owned(), name.to_owned());
            let at: usize = self.summary.tool_calls.len();
            record_call(
                &mut self.summary.tool_calls,
                ToolCall {
                    id: id.to_owned(),
                    name: name.to_owned(),
                    input: input.clone(),
                    ok: false,
                    output: None,
                },
            );
            self.pending_tools.insert(id.to_owned(), at);
            self.emit(
                AgentStateEvent::ToolStarted { id: id.to_owned(), name: name.to_owned(), input },
            );
        }
    }

    fn process_assistant(&mut self, value: &Json)
        ensures
            final(self)@ == match json::items_of(value@.get2("message"@, "content"@)) {
                Some(blocks) => old(self)@.on_blocks(blocks, 0),
                None => old(self)@,
            },
            final(self).buffer == old(self).buffer,
    {
        if let Some(content) = value.get2("message", "content") {
            if let Some(blocks) = content.as_array() {
                let ghost all = json::json_views(blocks@);
                let ghost before = *self;
                let mut i: usize = 0;
                while i < blocks.len()
                    invariant
                        i <= blocks@.len(),
                        all == json::json_views(blocks@),
                        self@.on_blocks(all, i as int) == before@.on_blocks(all, 0),
                        self.buffer == before.buffer,
                    decreases blocks@.len() - i,
                {
                    assert(all[i as int] == blocks@[i as int]@);
                    self.process_block(&blocks[i]);
                    i += 1;
                }
            }
        }
    }

    fn process_result_block(&mut self, block: &Json)
        ensures
            final(self)@ == old(self)@.on_result_block(block@),
            final(self).buffer == old(self).buffer,
    {
        match read_str(block.get("type")) {
            Some(kind) => {
                if !str_eq(kind, "tool_result") {
                    return;
                }
            },
            None => {
                return;
            },
        }
        let id = block.text("tool_use_id");
        let name = match self.tool_names.get(id) {
            Some(name) => name.clone(),
            None => String::new(),
        };
        let ok = !is_true(block.get("is_error"));
        let output = block.get("content");
        match self.pending_tools.remove(id) {
            Some(at) => {
                if at < self.summary.tool_calls.len() {
                    let ghost calls = self.summary.tool_calls@;
                    let mut call = self.summary.tool_calls[at].clone();
                    call.ok = ok;
                    call.output = copied(output);
                    self.summary.tool_calls.set(at, call);
                    assert(model::call_views(self.summary.tool_calls@) == model::call_views(
                        calls,
                    ).update(at as int, call@));
                }
            },
            None => {
                record_call(
                    &mut self.summary.tool_calls,
                    ToolCall {
                        id: id.to_owned(),
                        name: name.clone(),
                        input: Json::Null,
                        ok,
                        output: copied(output),
                    },
                );
            },
        }
        self.emit(
            AgentStateEvent::ToolFinished { id: id.to_owned(), name, ok, output: copied(output) },
        );
    }

    fn process_user(&mut self, value: &Json)
        ensures
            final(self)@ == match json::items_of(value@.get2("message"@, "content"@)) {
                Some(blocks) => old(self)@.on_result_blocks(blocks, 0),
                None => old(self)@,
            },
            final(self).buffer == old(self).buffer,
    {
        if let Some(content) = value.get2("message", "content") {
            if let Some(blocks) = content.as_array() {
                let ghost all = json::json_views(blocks@);
                let ghost before = *self;
                let mut i: usize = 0;
                while i < blocks.len()
                    invariant
                        i <= blocks@.len(),
                        all == json::json_views(blocks@),
                        self@.on_result_blocks(all, i as int) == before@.on_result_blocks(all, 0),
                        self.buffer == before.buffer,
                    decreases blocks@.len() - i,
                {
                    assert(all[i as int] == blocks@[i as int]@);
                    self.process_result_block(&blocks[i]);
                    i += 1;
                }
            }
        }
    }

    fn process_result(&mut self, value: &Json)
        ensures
            final(self)@ == old(self)@.on_result(value@),
            final(self).buffer == old(self).buffer,
    {
        self.saw_structured = true;
        self.saw_result = true;
        self.in_turn = false;
        if let Some(session_id) = read_str(value.get("session_id")) {
            self.summary.session_id = Some(session_id.to_owned());
            self.announce_session(session_id, None);
        }
        if let Some(text) = read_str(value.get("result")) {
            self.summary.text = text.to_owned();
        }
        let usage = AgentUsage {
            input_tokens: read_count(value.get2("usage", "input_tokens")),
            output_tokens: read_count(value.get2("usage", "output_tokens")),
            reasoning_tokens: 0,
            cache_read_tokens: read_count(value.get2("usage", "cache_read_input_tokens")),
            cache_write_tokens: read_count(value.get2("usage", "cache_creation_input_tokens")),
            cost_usd: reported_cost(read_double(value.get("total_cost_usd"))),
        };
        self.summary.usage.merge(&usage);
        record(&mut self.events, AgentStateEvent::Usage { usage });
        let failed = is_true(value.get("is_error"));
        if failed {
            self.saw_error = true;
            self.summary.outcome = Some(IdleOutcome::Failed);
        } else {
            self.summary.outcome = Some(IdleOutcome::Succeeded);
        }
        self.summary.error =
        match read_str(value.get("error")) {
            Some(error) => Some(error.to_owned()),
            None => if failed {
                let result = value.text("result");
                let subtype = value.text("subtype");
                if !result.is_empty() {
                    Some(result.to_owned())
                } else if !subtype.is_empty() {
                    Some(subtype.to_owned())
                } else {
                    Some("agent error".to_owned())
                }
            } else {
                None
            },
        };
    }

    fn process_error(&mut self, value: &Json)
        ensures
            final(self)@ == old(self)@.on_error(value@),
            final(self).buffer == old(self).buffer,
    {
        self.saw_error = true;
        let message = match read_str(value.get2("error", "message")) {
            Some(message) => message,
            None => match read_str(value.get("message")) {
                Some(message) => message,
                None => "agent error",
            },
        };
        self.summary.error = Some(message.to_owned());
        self.emit(AgentStateEvent::Error { message: message.to_owned() });
    }

    /// Reads one row of the stream.
    pub fn process_value(&mut self, value: &Json)
        ensures
            final(self)@ == old(self)@.on_record(value@),
            final(self).unread() == old(self).unread(),
    {
        reveal(ClaudeState::on_record);
        if !value.is_object() {
            return;
        }
        let kind = value.text("type");
        if str_eq(kind, "system") {
            self.process_system(value);
        } else if str_eq(kind, "stream_event") {
            self.process_stream_event(value);
        } else if str_eq(kind, "assistant") {
            self.process_assistant(value);
        } else if str_eq(kind, "user") {
            self.process_user(value);
        } else if str_eq(kind, "result") {
            self.process_result(value);
        } else if str_eq(kind, "error") {
            self.process_error(value);
        }
    }

    /// Feeds a raw output chunk. Complete lines are read at once; a partial
    /// line is held until more bytes, or [`Self::finish`], arrive.
    pub fn push(&mut self, chunk: &[u8])
        ensures
            (final(self)@, final(self).unread()) == lines::read_lines::<ClaudeStreamJsonParser>(
                old(self)@,
                old(self).unread() + chunk@,
            ),
    {
        let mut buffer: Vec<u8> = Vec::new();
        std::mem::swap(&mut self.buffer, &mut buffer);
        feed(self, &mut buffer, chunk);
        self.buffer = buffer;
    }

    /// Reads a partial last line and records how the run ended.
    ///
    /// The exit code only breaks a tie: it never makes a truncated stream look
    /// successful, and a stream without a single row keeps no outcome.
    pub fn finish(&mut self, exit_code: Option<i32>)
        ensures
            final(self)@ == old(self)@.ended(old(self).unread(), exit_code),
            final(self).unread() == if old(self)@.finished {
                old(self).unread()
            } else {
                Seq::empty()
            },
    {
        if self.finished {
            return;
        }
        self.finished = true;
        let mut buffer: Vec<u8> = Vec::new();
        std::mem::swap(&mut self.buffer, &mut buffer);
        let tail = decode_lossy(buffer.as_slice());
        let tail = trim(tail.as_str());
        if !tail.is_empty() {
            self.process_line(tail);
        }
        self.buffer = Vec::new();
        self.conclude(exit_code);
    }

    fn conclude(&mut self, exit_code: Option<i32>)
        ensures
            final(self)@ == old(self)@.concluded(exit_code),
            final(self).buffer == old(self).buffer,
    {
        if !self.saw_structured {
            return;
        }
        let outcome = match self.summary.outcome {
            Some(outcome) => outcome,
            None => if self.saw_error || exited_badly(exit_code) {
                IdleOutcome::Failed
            } else if self.saw_result {
                IdleOutcome::Succeeded
            } else {
                IdleOutcome::Interrupted
            },
        };
        self.summary.outcome = Some(outcome);
        self.emit(AgentStateEvent::Idle { outcome });
    }
}

} // verus!
