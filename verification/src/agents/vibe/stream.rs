//! Tolerant parser for `vibe --output streaming`.
//!
//! Vibe emits one JSON history entry per line, tagged by `type` (`message`,
//! `reasoning`, `effect`), with `sessionId` on every row and no usage row. Rows in
//! the shape of chat messages and a final `result` row are understood too. The
//! session's id, its title and its usage, where the stream leaves them out, come
//! from the session store.
use crate::agents::state;
use crate::agents::state::{find_pair, StateSourceConfig};
use crate::agents::vibe::session_index;
use crate::agents::vibe::session_index::{
    find_recent_session, find_session_in, read_meta_usage, SessionStore,
};
use crate::json;
use crate::json::{
    copied, copied_or_null, is_true, parse, read_bool, read_count, read_double, read_either_count,
    read_str, read_text, Json, JsonView,
};
use crate::lines;
use crate::lines::{decode_lossy, feed, LineReader};
use crate::model;
use crate::model::{Moment, 
    copy_text, exited_badly, record, record_call, reported_cost, AgentStateEvent, AgentUsage,
    EventView, IdleOutcome, MessageRole, RunSummary, SummaryView, ToolCall, ToolCallView,
};
use crate::table;
use crate::table::Table;
use crate::text;
use crate::text::{str_eq, trim};
use vstd::prelude::*;

verus! {

/// The texts of content parts from position `from` on, one behind the other.
pub open spec fn parts_text(parts: Seq<JsonView>, from: int) -> Seq<char>
    decreases parts.len() - from,
{
    if from < 0 || from >= parts.len() {
        Seq::empty()
    } else {
        parts[from].text("text"@) + parts_text(parts, from + 1)
    }
}

/// The plain text of an entry's content: a string, or the texts of its parts.
pub open spec fn plain_text(content: Option<JsonView>) -> Seq<char> {
    match content {
        Some(JsonView::Str(s)) => s,
        Some(JsonView::Array(parts)) => parts_text(parts, 0),
        _ => Seq::empty(),
    }
}

/// The plain text of an entry's content.
fn content_text(content: Option<&Json>) -> (s: String)
    ensures
        s@ == plain_text(json::opt_json_ref(content)),
{
    match content {
        Some(Json::Str(s)) => s.clone(),
        Some(Json::Array(parts)) => {
            let ghost all = json::json_views(parts@);
            assert(content->0@->Array_0 == all);
            let mut s = String::new();
            let mut i: usize = 0;
            assert(s@ + parts_text(all, 0) == parts_text(all, 0));
            while i < parts.len()
                invariant
                    i <= parts@.len(),
                    all == json::json_views(parts@),
                    s@ + parts_text(all, i as int) == parts_text(all, 0),
                decreases parts@.len() - i,
            {
                let ghost before = s@;
                assert(all[i as int] == parts@[i as int]@);
                s.append(parts[i].text("text"));
                assert(before + parts_text(all, i as int) == s@ + parts_text(all, i + 1));
                i += 1;
            }
            assert(s@ + Seq::<char>::empty() == s@);
            s
        },
        _ => String::new(),
    }
}

/// The arguments of a tool call: a JSON text is parsed, anything else stands for
/// itself.
pub open spec fn decoded(arguments: JsonView) -> JsonView {
    match arguments {
        JsonView::Str(s) => match json::parsed_text(s) {
            Some(value) => value,
            None => arguments,
        },
        _ => arguments,
    }
}

/// The arguments of a tool call.
fn parse_arguments(arguments: &Json) -> (value: Json)
    ensures
        value@ == decoded(arguments@),
{
    match arguments {
        Json::Str(s) => match parse(s.as_str()) {
            Some(value) => value,
            None => arguments.clone(),
        },
        _ => arguments.clone(),
    }
}

/// What a stream has shown so far.
pub struct VibeState {
    pub events: Seq<EventView>,
    pub summary: SummaryView,
    /// The directory and the begin of the run, where the session store is to be
    /// consulted.
    pub index: Option<(Seq<char>, Moment)>,
    pub last_turn_id: Option<Seq<char>>,
    /// The tool's name under each call's id.
    pub tool_names: Map<Seq<char>, Seq<char>>,
    /// A row of a known type was seen.
    pub saw_structured: bool,
    pub saw_error: bool,
    /// A turn produced text or a tool call.
    pub saw_completion: bool,
    pub finished: bool,
}

impl VibeState {
    /// The state before the first byte.
    pub open spec fn start() -> VibeState {
        VibeState {
            events: Seq::empty(),
            summary: model::blank_summary(),
            index: None,
            last_turn_id: None,
            tool_names: Map::empty(),
            saw_structured: false,
            saw_error: false,
            saw_completion: false,
            finished: false,
        }
    }

    pub open spec fn emit(self, event: EventView) -> VibeState {
        VibeState { events: self.events.push(event), ..self }
    }

    /// Adds a piece of the answer.
    pub open spec fn say(self, piece: Seq<char>) -> VibeState {
        if piece.len() == 0 {
            self
        } else {
            VibeState {
                saw_structured: true,
                saw_completion: true,
                summary: SummaryView { text: self.summary.text + piece, ..self.summary },
                ..self.emit(EventView::TextDelta { role: MessageRole::Assistant, text: piece })
            }
        }
    }

    /// Adds a piece of the reasoning.
    pub open spec fn think(self, piece: Seq<char>) -> VibeState {
        if piece.len() == 0 {
            self
        } else {
            VibeState {
                saw_structured: true,
                summary: SummaryView { reasoning: self.summary.reasoning + piece, ..self.summary },
                ..self.emit(EventView::ReasoningDelta { text: piece })
            }
        }
    }

    /// A tool begins.
    pub open spec fn begin_tool(self, id: Seq<char>, name: Seq<char>, input: JsonView) -> VibeState {
        VibeState {
            saw_structured: true,
            tool_names: self.tool_names.insert(id, name),
            ..self.emit(EventView::ToolStarted { id, name, input })
        }
    }

    /// A tool has ended.
    pub open spec fn end_tool(
        self,
        id: Seq<char>,
        name: Seq<char>,
        ok: bool,
        output: Option<JsonView>,
    ) -> VibeState {
        VibeState {
            saw_structured: true,
            summary: SummaryView {
                tool_calls: self.summary.tool_calls.push(
                    ToolCallView { id, name, input: JsonView::Null, ok, output },
                ),
                ..self.summary
            },
            ..self.emit(EventView::ToolFinished { id, name, ok, output })
        }
    }

    pub open spec fn fail(self, message: Seq<char>) -> VibeState {
        VibeState {
            saw_structured: true,
            saw_error: true,
            summary: SummaryView { error: Some(message), ..self.summary },
            ..self.emit(EventView::Error { message })
        }
    }

    /// An entry of an assistant's list of tool calls.
    pub open spec fn on_call(self, call: JsonView) -> VibeState {
        let id = call.text("id"@);
        let name = json::non_empty_or(
            json::text_of(call.get2("function"@, "name"@)),
            call.text("name"@),
        );
        let input = match call.get2("function"@, "arguments"@) {
            Some(arguments) => decoded(arguments),
            None => json::or_null(call.get("input"@)),
        };
        VibeState { saw_completion: true, ..self.begin_tool(id, name, input) }
    }

    /// The tool calls from position `from` on.
    pub open spec fn on_calls(self, calls: Seq<JsonView>, from: int) -> VibeState
        decreases calls.len() - from,
    {
        if from < 0 || from >= calls.len() {
            self
        } else {
            self.on_call(calls[from]).on_calls(calls, from + 1)
        }
    }

    pub open spec fn on_message(self, value: JsonView) -> VibeState {
        let role = value.text("role"@);
        if role == "assistant"@ {
            let told = self.say(plain_text(value.get("content"@))).think(
                value.text("reasoning_content"@),
            );
            match json::items_of(value.get("tool_calls"@)) {
                Some(calls) => told.on_calls(calls, 0),
                None => told,
            }
        } else if role == "tool"@ {
            let id = value.text("tool_call_id"@);
            let name = match table::lookup(self.tool_names, id) {
                Some(name) => name,
                None => value.text("name"@),
            };
            let ok = json::bool_of(value.get("is_error"@)) != Some(true) && value.get("error"@)
                is None;
            self.end_tool(id, name, ok, value.get("content"@))
        } else {
            self
        }
    }

    /// A row that carries a tool call and, once it is complete, its result.
    pub open spec fn on_effect(self, value: JsonView) -> VibeState {
        let id = value.text("id"@);
        let name = json::non_empty_or(
            json::text_of(value.get2("detail"@, "toolName"@)),
            value.text("title"@),
        );
        let input = json::or_null(
            json::first_of(value.get2("detail"@, "input"@), value.get2("detail"@, "display"@)),
        );
        let status = json::text_of(value.get2("state"@, "status"@));
        let good = status == "completed"@ || status == "success"@ || status == "succeeded"@;
        let terminal = good || status == "failed"@ || status == "error"@;
        let ok = match json::bool_of(value.get3("state"@, "display"@, "success"@)) {
            Some(success) => success,
            None => good,
        };
        let shown = json::text_of(value.get2("state"@, "outputText"@));
        let output = if shown.len() > 0 {
            Some(JsonView::Str(shown))
        } else {
            value.get2("state"@, "output"@)
        };
        let begun = self.begin_tool(id, name, input);
        if terminal {
            VibeState { saw_completion: true, ..begun }.end_tool(id, name, ok, output)
        } else {
            begun
        }
    }

    pub open spec fn on_step_finish(self, value: JsonView) -> VibeState {
        let usage = step_usage(value);
        if usage == model::no_usage() {
            self
        } else {
            VibeState {
                saw_structured: true,
                summary: SummaryView { usage: self.summary.usage.merged(usage), ..self.summary },
                ..self.emit(EventView::Usage { usage })
            }
        }
    }

    pub open spec fn on_system(self, value: JsonView) -> VibeState {
        if value.text("subtype"@) != "init"@ {
            self
        } else {
            let model = some_text(json::non_empty_or(value.text("model"@), value.text("model_name"@)));
            let session_id = some_text(
                json::non_empty_or(value.text("sessionId"@), value.text("session_id"@)),
            );
            VibeState {
                saw_structured: true,
                summary: SummaryView {
                    session_id: json::first_of(self.summary.session_id, session_id),
                    ..self.summary
                },
                ..self.emit(EventView::Session { session_id, title: None, model })
            }
        }
    }

    /// A final row: usage and outcome of the run.
    pub open spec fn on_result(self, value: JsonView) -> VibeState {
        let usage = result_usage(value);
        let failed = json::bool_of(value.get("is_error"@)) == Some(true);
        let message = json::non_empty_or(value.text("error"@), value.text("subtype"@));
        let outcome = if failed {
            IdleOutcome::Failed
        } else {
            IdleOutcome::Succeeded
        };
        let spent = VibeState {
            saw_structured: true,
            saw_completion: true,
            summary: SummaryView { usage: self.summary.usage.merged(usage), ..self.summary },
            ..self.emit(EventView::Usage { usage })
        };
        let judged = if failed && message.len() > 0 {
            spent.fail(message)
        } else {
            VibeState { saw_error: spent.saw_error || failed, ..spent }
        };
        VibeState {
            summary: SummaryView { outcome: Some(outcome), ..judged.summary },
            ..judged.emit(EventView::Idle { outcome })
        }
    }

    /// Marks the begin of a turn with the first row that carries its id.
    pub open spec fn on_turn(self, value: JsonView) -> VibeState {
        match json::str_of(value.get("turnId"@)) {
            Some(id) => if self.last_turn_id == Some(id) {
                self
            } else {
                VibeState { last_turn_id: Some(id), ..self.emit(EventView::TurnStarted) }
            },
            None => self,
        }
    }

    /// What a row of type `kind` tells.
    pub open spec fn on_row(self, kind: Seq<char>, value: JsonView) -> VibeState {
        if kind == "message"@ {
            self.on_message(value)
        } else if kind == "reasoning"@ {
            self.think(value.text("text"@))
        } else if kind == "effect"@ {
            self.on_effect(value)
        } else if kind == "text"@ {
            self.say(value.text("text"@))
        } else if kind == "tool_use"@ {
            VibeState {
                saw_completion: true,
                ..self.begin_tool(
                    value.text("id"@),
                    value.text("name"@),
                    json::or_null(value.get("input"@)),
                )
            }
        } else if kind == "step_start"@ {
            VibeState { saw_structured: true, ..self.emit(EventView::TurnStarted) }
        } else if kind == "step_finish"@ {
            self.on_step_finish(value)
        } else if kind == "error"@ {
            self.fail(
                json::non_empty_or(
                    json::text_of(value.get2("error"@, "message"@)),
                    json::non_empty_or(value.text("message"@), "agent error"@),
                ),
            )
        } else if kind == "system"@ {
            self.on_system(value)
        } else if kind == "result"@ {
            self.on_result(value)
        } else if value.get("role"@) is Some {
            self.on_message(value)
        } else {
            self
        }
    }

    /// Announces the session with the first row that carries its id.
    pub open spec fn on_session(self, value: JsonView) -> VibeState {
        let id = text::trimmed(value.text("sessionId"@));
        if self.summary.session_id is None && id.len() > 0 {
            VibeState {
                summary: SummaryView { session_id: Some(id), ..self.summary },
                ..self.emit(EventView::Session { session_id: Some(id), title: None, model: None })
            }
        } else {
            self
        }
    }

    /// The state after one row. Rows marked as injected are replays.
    #[verifier::opaque]
    pub open spec fn on_record(self, value: JsonView) -> VibeState {
        if !(value is Object) || json::bool_of(value.get("injected"@)) == Some(true) {
            self
        } else {
            self.on_turn(value).on_row(value.text("type"@), value).on_session(value)
        }
    }

    /// The state after one line; a line that is no JSON changes nothing.
    pub open spec fn on_line(self, line: Seq<char>) -> VibeState {
        let content = text::trimmed(line);
        if content.len() == 0 {
            self
        } else {
            match json::parsed_text(content) {
                Some(value) => self.on_record(value),
                None => self,
            }
        }
    }

    /// Fills in what the stream left out from the session store.
    pub open spec fn filled(self, store: Option<SessionStore>) -> VibeState {
        match (self.index, store) {
            (Some((cwd, since)), Some(store)) => match self.summary.session_id {
                None => match session_index::recent_session(store, cwd, since) {
                    Some(identity) => VibeState {
                        summary: SummaryView {
                            session_id: Some(identity.id),
                            title: identity.title,
                            ..self.summary
                        },
                        ..self.emit(
                            EventView::Session {
                                session_id: Some(identity.id),
                                title: identity.title,
                                model: None,
                            },
                        )
                    },
                    None => self,
                },
                Some(id) => self.titled(store, id).accounted(store, id),
            },
            _ => self,
        }
    }

    /// Takes the title of the session `id` from the store.
    pub open spec fn titled(self, store: SessionStore, id: Seq<char>) -> VibeState {
        let title = match session_index::session_in(store, id) {
            Some(identity) => identity.title,
            None => None,
        };
        match (self.summary.title, title) {
            (None, Some(title)) => VibeState {
                summary: SummaryView { title: Some(title), ..self.summary },
                ..self.emit(EventView::Title { title })
            },
            _ => self,
        }
    }

    /// Takes the usage of the session `id` from the store.
    pub open spec fn accounted(self, store: SessionStore, id: Seq<char>) -> VibeState {
        let usage = match session_index::session_meta(store, id) {
            Some(meta) => session_index::meta_usage(meta),
            None => None,
        };
        if self.summary.usage == model::no_usage() && usage is Some {
            VibeState {
                summary: SummaryView {
                    usage: self.summary.usage.merged(usage->0),
                    ..self.summary
                },
                ..self.emit(EventView::Usage { usage: usage->0 })
            }
        } else {
            self
        }
    }

    /// The state at the end of a stream whose process ended with `exit_code`.
    pub open spec fn concluded(self, exit_code: Option<i32>, store: Option<SessionStore>) -> VibeState {
        if !self.saw_structured {
            self
        } else {
            let whole = self.filled(store);
            if whole.summary.outcome is Some {
                whole
            } else {
                let outcome = if whole.saw_error || model::bad_exit(exit_code) {
                    IdleOutcome::Failed
                } else if whole.saw_completion {
                    IdleOutcome::Succeeded
                } else {
                    IdleOutcome::Interrupted
                };
                VibeState {
                    summary: SummaryView { outcome: Some(outcome), ..whole.summary },
                    ..whole.emit(EventView::Idle { outcome })
                }
            }
        }
    }

    /// The state once the last bytes, `rest`, and the exit code are known.
    pub open spec fn ended(
        self,
        rest: Seq<u8>,
        exit_code: Option<i32>,
        store: Option<SessionStore>,
    ) -> VibeState {
        if self.finished {
            self
        } else {
            let done = VibeState { finished: true, ..self };
            let tail = lines::last_line(rest);
            let read = if tail.len() > 0 {
                done.on_line(tail)
            } else {
                done
            };
            read.concluded(exit_code, store)
        }
    }
}

/// A text, where it is not empty.
pub open spec fn some_text(s: Seq<char>) -> Option<Seq<char>> {
    if s.len() > 0 {
        Some(s)
    } else {
        None
    }
}

/// The usage that a finished step reports.
pub open spec fn step_usage(value: JsonView) -> AgentUsage {
    let tokens = json::or_null(value.get2("part"@, "tokens"@));
    AgentUsage {
        input_tokens: json::either_count(tokens.get("input"@), tokens.get("prompt"@)),
        output_tokens: json::either_count(tokens.get("output"@), tokens.get("completion"@)),
        reasoning_tokens: tokens.count("reasoning"@),
        cache_read_tokens: json::either_count(tokens.get2("cache"@, "read"@), tokens.get("cached"@)),
        cache_write_tokens: json::count_of(tokens.get2("cache"@, "write"@)),
        cost_usd: model::reported(
            json::first_of(
                json::double_of(value.get2("part"@, "cost"@)),
                json::double_of(value.get("cost"@)),
            ),
        ),
    }
}

/// The usage that a final row reports.
pub open spec fn result_usage(value: JsonView) -> AgentUsage {
    let usage = json::or_null(value.get("usage"@));
    AgentUsage {
        input_tokens: json::either_count(usage.get("input_tokens"@), usage.get("prompt_tokens"@)),
        output_tokens: json::either_count(
            usage.get("output_tokens"@),
            usage.get("completion_tokens"@),
        ),
        reasoning_tokens: usage.count("reasoning_tokens"@),
        cache_read_tokens: match usage.get("cache_read_tokens"@) {
            Some(JsonView::Number(n)) if n.unsigned is Some => n.unsigned->0,
            _ => json::either_count(
                usage.get("cache_read_input_tokens"@),
                usage.get("cached_tokens"@),
            ),
        },
        cache_write_tokens: json::either_count(
            usage.get("cache_write_tokens"@),
            usage.get("cache_creation_input_tokens"@),
        ),
        cost_usd: model::reported(
            json::first_of(
                json::double_of(value.get("total_cost_usd"@)),
                json::first_of(
                    json::double_of(value.get("cost_usd"@)),
                    json::double_of(usage.get("cost_usd"@)),
                ),
            ),
        ),
    }
}

/// A text, where it is not empty.
fn non_empty(s: &str) -> (t: Option<String>)
    ensures
        model::opt_text(t) == some_text(s@),
{
    if s.is_empty() {
        None
    } else {
        Some(s.to_owned())
    }
}

/// `a`, or `b` where `a` is empty.
fn either_text<'a>(a: &'a str, b: &'a str) -> (s: &'a str)
    ensures
        s@ == json::non_empty_or(a@, b@),
{
    if a.is_empty() {
        b
    } else {
        a
    }
}

/// The usage that a finished step reports.
fn read_step_usage(value: &Json) -> (usage: AgentUsage)
    ensures
        usage == step_usage(value@),
{
    let nothing = Json::Null;
    let tokens = match value.get2("part", "tokens") {
        Some(tokens) => tokens,
        None => &nothing,
    };
    AgentUsage {
        input_tokens: read_either_count(tokens.get("input"), tokens.get("prompt")),
        output_tokens: read_either_count(tokens.get("output"), tokens.get("completion")),
        reasoning_tokens: tokens.count("reasoning"),
        cache_read_tokens: read_either_count(tokens.get2("cache", "read"), tokens.get("cached")),
        cache_write_tokens: read_count(tokens.get2("cache", "write")),
        cost_usd: reported_cost(
            match read_double(value.get2("part", "cost")) {
                Some(bits) => Some(bits),
                None => read_double(value.get("cost")),
            },
        ),
    }
}

/// The usage that a final row reports.
fn read_result_usage(value: &Json) -> (usage: AgentUsage)
    ensures
        usage == result_usage(value@),
{
    let nothing = Json::Null;
    let usage = match value.get("usage") {
        Some(usage) => usage,
        None => &nothing,
    };
    let read = match usage.get("cache_read_tokens") {
        Some(v) => v.as_u64(),
        None => None,
    };
    AgentUsage {
        input_tokens: read_either_count(usage.get("input_tokens"), usage.get("prompt_tokens")),
        output_tokens: read_either_count(
            usage.get("output_tokens"),
            usage.get("completion_tokens"),
        ),
        reasoning_tokens: usage.count("reasoning_tokens"),
        cache_read_tokens: match read {
            Some(n) => n,
            None => read_either_count(
                usage.get("cache_read_input_tokens"),
                usage.get("cached_tokens"),
            ),
        },
        cache_write_tokens: read_either_count(
            usage.get("cache_write_tokens"),
            usage.get("cache_creation_input_tokens"),
        ),
        cost_usd: reported_cost(
            match read_double(value.get("total_cost_usd")) {
                Some(bits) => Some(bits),
                None => match read_double(value.get("cost_usd")) {
                    Some(bits) => Some(bits),
                    None => read_double(usage.get("cost_usd")),
                },
            },
        ),
    }
}

/// A streaming, noise-tolerant parser.
pub struct VibeStreamParser {
    buffer: Vec<u8>,
    events: Vec<AgentStateEvent>,
    summary: RunSummary,
    index: Option<(String, Moment)>,
    last_turn_id: Option<String>,
    tool_names: Table<String>,
    saw_structured: bool,
    saw_error: bool,
    saw_completion: bool,
    finished: bool,
}

impl View for VibeStreamParser {
    type V = VibeState;

    closed spec fn view(&self) -> VibeState {
        VibeState {
            events: model::event_views(self.events@),
            summary: self.summary@,
            index: match self.index {
                Some((cwd, since)) => Some((cwd@, since)),
                None => None,
            },
            last_turn_id: model::opt_text(self.last_turn_id),
            tool_names: self.tool_names@,
            saw_structured: self.saw_structured,
            saw_error: self.saw_error,
            saw_completion: self.saw_completion,
            finished: self.finished,
        }
    }
}

impl LineReader for VibeStreamParser {
    type State = VibeState;

    open spec fn state(&self) -> VibeState {
        self@
    }

    open spec fn step(state: VibeState, line: Seq<char>) -> VibeState {
        state.on_line(line)
    }

    open spec fn stopped(state: VibeState) -> bool {
        false
    }

    fn is_stopped(&self) -> (stopped: bool) {
        false
    }

    fn process_line(&mut self, line: &str)
        ensures
            final(self).unread() == old(self).unread(),
    {
        let content = trim(line);
        if content.is_empty() {
            return;
        }
        if let Some(value) = parse(content) {
            self.process_value(&value);
        }
    }
}

impl VibeStreamParser {
    /// The bytes that have not been read as a line yet.
    pub closed spec fn unread(&self) -> Seq<u8> {
        self.buffer@
    }

    /// A parser before the first byte.
    pub fn new() -> (parser: VibeStreamParser)
        ensures
            parser@ == VibeState::start(),
            parser.unread() == Seq::<u8>::empty(),
    {
        let parser = VibeStreamParser {
            buffer: Vec::new(),
            events: Vec::new(),
            summary: RunSummary::default(),
            index: None,
            last_turn_id: None,
            tool_names: Table::new(),
            saw_structured: false,
            saw_error: false,
            saw_completion: false,
            finished: false,
        };
        assert(parser@.events == Seq::<EventView>::empty());
        parser
    }

    /// Lets the end of the stream consult the session store, for a run that
    /// began at `since` in `cwd`.
    pub fn with_index(&mut self, cwd: String, since: Moment)
        ensures
            final(self)@ == (VibeState { index: Some((cwd@, since)), ..old(self)@ }),
            final(self).unread() == old(self).unread(),
    {
        self.index = Some((cwd, since));
    }

    /// The structured result built so far.
    pub fn summary(&self) -> (summary: &RunSummary)
        ensures
            summary@ == self@.summary,
    {
        &self.summary
    }

    /// The normalized events observed so far, in order.
    pub fn events(&self) -> (events: &Vec<AgentStateEvent>)
        ensures
            model::event_views(events@) == self@.events,
    {
        &self.events
    }

    fn emit(&mut self, event: AgentStateEvent)
        ensures
            final(self)@ == old(self)@.emit(event@),
            final(self).buffer == old(self).buffer,
    {
        record(&mut self.events, event);
    }

    fn record_text(&mut self, piece: &str)
        ensures
            final(self)@ == old(self)@.say(piece@),
            final(self).buffer == old(self).buffer,
    {
        if piece.is_empty() {
            return;
        }
        self.saw_structured = true;
        self.saw_completion = true;
        self.summary.text.append(piece);
        self.emit(
            AgentStateEvent::TextDelta { role: MessageRole::Assistant, text: piece.to_owned() },
        );
    }

    fn process_reasoning(&mut self, piece: &str)
        ensures
            final(self)@ == old(self)@.think(piece@),
            final(self).buffer == old(self).buffer,
    {
        if piece.is_empty() {
            return;
        }
        self.saw_structured = true;
        self.summary.reasoning.append(piece);
        self.emit(AgentStateEvent::ReasoningDelta { text: piece.to_owned() });
    }

    fn begin_tool(&mut self, id: &str, name: &str, input: Json)
        ensures
            final(self)@ == old(self)@.begin_tool(id@, name@, input@),
            final(self).buffer == old(self).buffer,
    {
        self.saw_structured = true;
        self.tool_names.insert(id.to_owned(), name.to_owned());
        self.emit(
            AgentStateEvent::ToolStarted { id: id.to_owned(), name: name.to_owned(), input },
        );
    }

    fn finish_tool_call(&mut self, id: &str, name: &str, ok: bool, output: Option<Json>)
        ensures
            final(self)@ == old(self)@.end_tool(id@, name@, ok, json::opt_json(output)),
            final(self).buffer == old(self).buffer,
    {
        self.saw_structured = true;
        let copy = match &output {
            Some(output) => Some(output.clone()),
            None => None,
        };
        self.emit(
            AgentStateEvent::ToolFinished {
                id: id.to_owned(),
                name: name.to_owned(),
                ok,
                output: copy,
            },
        );
        record_call(
            &mut self.summary.tool_calls,
            ToolCall { id: id.to_owned(), name: name.to_owned(), input: Json::Null, ok, output },
        );
    }

    fn record_error(&mut self, message: &str)
        ensures
            final(self)@ == old(self)@.fail(message@),
            final(self).buffer == old(self).buffer,
    {
        self.saw_structured = true;
        self.saw_error = true;
        self.summary.error = Some(message.to_owned());
        self.emit(AgentStateEvent::Error { message: message.to_owned() });
    }

    fn start_tool_call(&mut self, call: &Json)
        ensures
            final(self)@ == old(self)@.on_call(call@),
            final(self).buffer == old(self).buffer,
    {
        let id = call.text("id");
        let name = either_text(read_text(call.get2("function", "name")), call.text("name"));
        let input = match call.get2("function", "arguments") {
            Some(arguments) => parse_arguments(arguments),
            None => copied_or_null(call.get("input")),
        };
        self.begin_tool(id, name, input);
        self.saw_completion = true;
    }

    fn start_tool_calls(&mut self, calls: &Vec<Json>)
        ensures
            final(self)@ == old(self)@.on_calls(json::json_views(calls@), 0),
            final(self).buffer == old(self).buffer,
    {
        let ghost all = json::json_views(calls@);
        let ghost before = *self;
        let mut i: usize = 0;
        while i < calls.len()
            invariant
                i <= calls@.len(),
                all == json::json_views(calls@),
                self@.on_calls(all, i as int) == before@.on_calls(all, 0),
                self.buffer == before.buffer,
            decreases calls@.len() - i,
        {
            assert(all[i as int] == calls@[i as int]@);
            self.start_tool_call(&calls[i]);
            i += 1;
        }
    }

    fn process_message(&mut self, value: &Json)
        ensures
            final(self)@ == old(self)@.on_message(value@),
            final(self).buffer == old(self).buffer,
    {
        let role = value.text("role");
        if str_eq(role, "assistant") {
            let spoken = content_text(value.get("content"));
            self.record_text(spoken.as_str());
            self.process_reasoning(value.text("reasoning_content"));
            if let Some(calls) = value.get("tool_calls") {
                if let Some(calls) = calls.as_array() {
                    self.start_tool_calls(calls);
                }
            }
        } else if str_eq(role, "tool") {
            let id = value.text("tool_call_id");
            let name = match self.tool_names.get(id) {
                Some(name) => name.clone(),
                None => value.text("name").to_owned(),
            };
            let ok = !is_true(value.get("is_error")) && value.get("error").is_none();
            self.finish_tool_call(id, name.as_str(), ok, copied(value.get("content")));
        }
    }

    fn process_effect(&mut self, value: &Json)
        ensures
            final(self)@ == old(self)@.on_effect(value@),
            final(self).buffer == old(self).buffer,
    {
        let id = value.text("id");
        let name = either_text(read_text(value.get2("detail", "toolName")), value.text("title"));
        let input = match value.get2("detail", "input") {
            Some(input) => input.clone(),
            None => copied_or_null(value.get2("detail", "display")),
        };
        let status = read_text(value.get2("state", "status"));
        let good = str_eq(status, "completed") || str_eq(status, "success") || str_eq(
            status,
            "succeeded",
        );
        let terminal = good || str_eq(status, "failed") || str_eq(status, "error");
        let ok = match read_bool(value.get3("state", "display", "success")) {
            Some(success) => success,
            None => good,
        };
        let shown = read_text(value.get2("state", "outputText"));
        let output = if !shown.is_empty() {
            Some(Json::Str(shown.to_owned()))
        } else {
            copied(value.get2("state", "output"))
        };
        self.begin_tool(id, name, input);
        if terminal {
            self.saw_completion = true;
            self.finish_tool_call(id, name, ok, output);
        }
    }

    fn process_step_finish(&mut self, value: &Json)
        ensures
            final(self)@ == old(self)@.on_step_finish(value@),
            final(self).buffer == old(self).buffer,
    {
        let usage = read_step_usage(value);
        if usage.is_empty() {
            return;
        }
        self.saw_structured = true;
        self.summary.usage.merge(&usage);
        self.emit(AgentStateEvent::Usage { usage });
    }

    fn process_system(&mut self, value: &Json)
        ensures
            final(self)@ == old(self)@.on_system(value@),
            final(self).buffer == old(self).buffer,
    {
        if !str_eq(value.text("subtype"), "init") {
            return;
        }
        self.saw_structured = true;
        let model = non_empty(either_text(value.text("model"), value.text("model_name")));
        let session_id = non_empty(either_text(value.text("sessionId"), value.text("session_id")));
        if self.summary.session_id.is_none() {
            self.summary.session_id = copy_text(&session_id);
        }
        self.emit(AgentStateEvent::Session { session_id, title: None, model });
    }

    fn process_result(&mut self, value: &Json)
        ensures
            final(self)@ == old(self)@.on_result(value@),
            final(self).buffer == old(self).buffer,
    {
        self.saw_structured = true;
        self.saw_completion = true;
        let usage = read_result_usage(value);
        self.summary.usage.merge(&usage);
        self.emit(AgentStateEvent::Usage { usage });
        let failed = is_true(value.get("is_error"));
        if failed {
            self.saw_error = true;
            let message = either_text(value.text("error"), value.text("subtype"));
            if !message.is_empty() {
                self.record_error(message);
            }
        }
        let outcome = if failed {
            IdleOutcome::Failed
        } else {
            IdleOutcome::Succeeded
        };
        self.summary.outcome = Some(outcome);
        self.emit(AgentStateEvent::Idle { outcome });
    }

    fn process_turn(&mut self, value: &Json)
        ensures
            final(self)@ == old(self)@.on_turn(value@),
            final(self).buffer == old(self).buffer,
    {
        if let Some(id) = read_str(value.get("turnId")) {
            let known = match &self.last_turn_id {
                Some(last) => str_eq(last.as_str(), id),
                None => false,
            };
            if !known {
                self.last_turn_id = Some(id.to_owned());
                self.emit(AgentStateEvent::TurnStarted);
            }
        }
    }

    fn announce_session(&mut self, value: &Json)
        ensures
            final(self)@ == old(self)@.on_session(value@),
            final(self).buffer == old(self).buffer,
    {
        let id = trim(value.text("sessionId"));
        if self.summary.session_id.is_none() && !id.is_empty() {
            self.summary.session_id = Some(id.to_owned());
            self.emit(
                AgentStateEvent::Session {
                    session_id: Some(id.to_owned()),
                    title: None,
                    model: None,
                },
            );
        }
    }

    fn process_row(&mut self, value: &Json)
        ensures
            final(self)@ == old(self)@.on_row(value@.text("type"@), value@),
            final(self).buffer == old(self).buffer,
    {
        let kind = value.text("type");
        if str_eq(kind, "message") {
            self.process_message(value);
        } else if str_eq(kind, "reasoning") {
            self.process_reasoning(value.text("text"));
        } else if str_eq(kind, "effect") {
            self.process_effect(value);
        } else if str_eq(kind, "text") {
            self.record_text(value.text("text"));
        } else if str_eq(kind, "tool_use") {
            let input = copied_or_null(value.get("input"));
            self.begin_tool(value.text("id"), value.text("name"), input);
            self.saw_completion = true;
        } else if str_eq(kind, "step_start") {
            self.saw_structured = true;
            self.emit(AgentStateEvent::TurnStarted);
        } else if str_eq(kind, "step_finish") {
            self.process_step_finish(value);
        } else if str_eq(kind, "error") {
            let inner = read_text(value.get2("error", "message"));
            let message = either_text(inner, either_text(value.text("message"), "agent error"));
            self.record_error(message);
        } else if str_eq(kind, "system") {
            self.process_system(value);
        } else if str_eq(kind, "result") {
            self.process_result(value);
        } else if value.get("role").is_some() {
            self.process_message(value);
        }
    }

    /// Reads one row of the stream.
    pub fn process_value(&mut self, value: &Json)
        ensures
            final(self)@ == old(self)@.on_record(value@),
            final(self).unread() == old(self).unread(),
    {
        reveal(VibeState::on_record);
        if !value.is_object() || is_true(value.get("injected")) {
            return;
        }
        self.process_turn(value);
        self.process_row(value);
        self.announce_session(value);
    }

    /// Feeds a raw output chunk. Complete lines are read at once; a partial
    /// line is held until more bytes, or [`Self::finish`], arrive.
    pub fn push(&mut self, chunk: &[u8])
        ensures
            (final(self)@, final(self).unread()) == lines::read_lines::<VibeStreamParser>(
                old(self)@,
                old(self).unread() + chunk@,
            ),
    {
        let mut buffer: Vec<u8> = Vec::new();
        std::mem::swap(&mut self.buffer, &mut buffer);
        feed(self, &mut buffer, chunk);
        self.buffer = buffer;
    }

    fn take_title(&mut self, store: &SessionStore, id: &str)
        ensures
            final(self)@ == old(self)@.titled(*store, id@),
            final(self).buffer == old(self).buffer,
    {
        if self.summary.title.is_none() {
            if let Some(identity) = find_session_in(store, id) {
                if let Some(title) = identity.title {
                    self.summary.title = Some(title.clone());
                    self.emit(AgentStateEvent::Title { title });
                }
            }
        }
    }

    fn take_usage(&mut self, store: &SessionStore, id: &str)
        ensures
            final(self)@ == old(self)@.accounted(*store, id@),
            final(self).buffer == old(self).buffer,
    {
        if self.summary.usage.is_empty() {
            if let Some(usage) = read_meta_usage(store, id) {
                self.summary.usage.merge(&usage);
                self.emit(AgentStateEvent::Usage { usage });
            }
        }
    }

    fn backfill_from_index(&mut self, store: &Option<SessionStore>)
        ensures
            final(self)@ == old(self)@.filled(*store),
            final(self).buffer == old(self).buffer,
    {
        if let (Some((cwd, since)), Some(store)) = (&self.index, store) {
            match copy_text(&self.summary.session_id) {
                None => {
                    if let Some(identity) = find_recent_session(store, cwd.as_str(), *since) {
                        self.summary.session_id = Some(identity.id.clone());
                        self.summary.title = copy_text(&identity.title);
                        self.emit(
                            AgentStateEvent::Session {
                                session_id: Some(identity.id),
                                title: identity.title,
                                model: None,
                            },
                        );
                    }
                },
                Some(id) => {
                    self.take_title(store, id.as_str());
                    self.take_usage(store, id.as_str());
                },
            }
        }
    }

    /// Reads a partial last line and records how the run ended. `store` is what
    /// the session store holds, where it is to be consulted.
    ///
    /// The exit code only breaks a tie: it never claims success for a stream that
    /// produced no row.
    pub fn finish(&mut self, exit_code: Option<i32>, store: &Option<SessionStore>)
        ensures
            final(self)@ == old(self)@.ended(old(self).unread(), exit_code, *store),
            final(self).unread() == if old(self)@.finished {
                old(self).unread()
            } else {
                Seq::empty()
            },
    {
        if self.finished {
            return;
        }
        self.finished = true;
        let mut buffer: Vec<u8> = Vec::new();
        std::mem::swap(&mut self.buffer, &mut buffer);
        let tail = decode_lossy(buffer.as_slice());
        let tail = trim(tail.as_str());
        if !tail.is_empty() {
            self.process_line(tail);
        }
        self.buffer = Vec::new();
        self.conclude(exit_code, store);
    }

    fn conclude(&mut self, exit_code: Option<i32>, store: &Option<SessionStore>)
        ensures
            final(self)@ == old(self)@.concluded(exit_code, *store),
            final(self).buffer == old(self).buffer,
    {
        if !self.saw_structured {
            return;
        }
        self.backfill_from_index(store);
        if self.summary.outcome.is_none() {
            let outcome = if self.saw_error || exited_badly(exit_code) {
                IdleOutcome::Failed
            } else if self.saw_completion {
                IdleOutcome::Succeeded
            } else {
                IdleOutcome::Interrupted
            };
            self.summary.outcome = Some(outcome);
            self.emit(AgentStateEvent::Idle { outcome });
        }
    }
}

/// The observer of an unattended run.
#[derive(Debug, PartialEq, Eq)]
pub struct VibeStreamSource {
    pub cwd: Option<String>,
}

impl VibeStreamSource {
    /// A stable label for diagnostics.
    pub fn label(&self) -> (label: &'static str)
        ensures
            label@ == "vibe-streaming"@,
    {
        "vibe-streaming"
    }

    /// The parser of a run that began at `now`. It consults the session store where
    /// Vibe has a home and the run a working directory.
    pub fn start(&self, has_home: bool, now: Moment) -> (parser: VibeStreamParser)
        ensures
            parser@ == (VibeState {
                index: match model::opt_text(self.cwd) {
                    Some(cwd) if has_home => Some((cwd, now)),
                    _ => None,
                },
                ..VibeState::start()
            }),
            parser.unread() == Seq::<u8>::empty(),
    {
        let mut parser = VibeStreamParser::new();
        if has_home {
            if let Some(cwd) = &self.cwd {
                parser.with_index(cwd.clone(), now);
            }
        }
        parser
    }
}

/// How a launch of Vibe is observed: an unattended run that streams its rows by
/// them, any other launch by its screen.
pub fn state_source(cfg: &StateSourceConfig) -> (source: Option<VibeStreamSource>)
    ensures
        source is Some <==> cfg.headless && state::has_pair(
            text::views(cfg.args@),
            "--output"@,
            "streaming"@,
        ),
        source is Some ==> model::opt_text(source->0.cwd) == model::opt_text(cfg.cwd),
{
    if cfg.headless && find_pair(&cfg.args, "--output", "streaming") {
        Some(VibeStreamSource { cwd: copy_text(&cfg.cwd) })
    } else {
        None
    }
}

/// What a reply to such a run is refused with.
pub fn no_permission_channel() -> (message: &'static str)
    ensures
        message@ == "vibe has no permission channel"@,
{
    "vibe has no permission channel"
}

} // verus!
