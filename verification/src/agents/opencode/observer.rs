//! Live state of a session on the managed server: one subscription to its events.
//!
//! Delivery of events is best effort, so the open permission requests and the
//! outcome are read again from time to time. Event names of earlier versions are
//! understood too.
use crate::agents::opencode::server;
use crate::agents::opencode::server::{backoff, encode_segment, Endpoint};
use crate::agents::state::InputReply;
use crate::json;
use crate::json::{
    copied, copied_or_null, parse, read_count, read_double, read_str, read_text, read_texts,
    single_value, string_value, value_to_string, Json, JsonView,
};
use crate::lines;
use crate::lines::decode_lossy;
use crate::model;
use crate::model::{
    record, reported_cost, AgentStateEvent, AgentUsage, AwaitingInputKind, EventView, IdleOutcome,
    InputRequest, InputRequestView, MessageRole,
};
use crate::table;
use crate::table::Table;
use crate::text;
use crate::text::{chars_of, link, str_eq, string_from, texts, trim};
use vstd::prelude::*;

verus! {

/// How often a lost subscription is tried again.
pub const MAX_ATTEMPTS: u32 = 10;

/// How often the session is read again, in milliseconds.
pub const RECONCILE_INTERVAL: u64 = 5000;

/// The observer of a session on the managed server.
pub struct OpenCodeServer {
    pub endpoint: Endpoint,
}

/// What a session without an id is refused with.
pub fn session_required() -> (message: &'static str)
    ensures
        message@ == "managed opencode observer requires a session id"@,
{
    "managed opencode observer requires a session id"
}

impl OpenCodeServer {
    pub fn new(endpoint: Endpoint) -> (source: OpenCodeServer)
        ensures
            source.endpoint == endpoint,
    {
        OpenCodeServer { endpoint }
    }

    /// A stable label for diagnostics.
    pub fn label(&self) -> (label: &'static str)
        ensures
            label@ == "opencode-server"@,
    {
        "opencode-server"
    }

    /// The event that tells the session's identity before the first one arrives;
    /// nothing where there is no session to observe.
    pub fn start(&self, external_session: &Option<String>) -> (seed: Option<AgentStateEvent>)
        ensures
            match *external_session {
                Some(session) => seed is Some && seed->0@ == (EventView::Session {
                    session_id: Some(session@),
                    title: None,
                    model: None,
                }),
                None => seed is None,
            },
    {
        match external_session {
            Some(session) => Some(
                AgentStateEvent::Session {
                    session_id: Some(session.clone()),
                    title: None,
                    model: None,
                },
            ),
            None => None,
        }
    }
}

/// The decision that a reply to a permission request is.
pub open spec fn decision_of(reply: InputReply) -> Option<Seq<char>> {
    match reply {
        InputReply::Once => Some("once"@),
        InputReply::Always => Some("always"@),
        InputReply::Reject => Some("reject"@),
        _ => None,
    }
}

/// The decision that a reply to a permission request is; nothing where it is none.
pub fn decision_for(reply: &InputReply) -> (decision: Option<&'static str>)
    ensures
        json::opt_str(decision) == decision_of(*reply),
{
    match reply {
        InputReply::Once => Some("once"),
        InputReply::Always => Some("always"),
        InputReply::Reject => Some("reject"),
        _ => None,
    }
}

/// The path and the body that answer a permission request; nothing where the server
/// takes no such answer.
pub fn permission_reply(session_id: &str, request_id: &str, reply: &InputReply) -> (request: Option<
    (String, String),
>)
    ensures
        match request {
            Some((path, body)) => {
                &&& decision_of(*reply) is Some
                &&& path@ == "/api/session/"@ + server::encoded_text(session_id@) + "/permission/"@
                    + server::encoded_text(request_id@) + "/reply"@
                &&& body@ == json::written(
                    JsonView::Object(
                        seq![("decision"@, JsonView::Str(decision_of(*reply)->0))],
                    ),
                )
            },
            None => decision_of(*reply) is None,
        },
{
    match decision_for(reply) {
        Some(decision) => Some(
            (
                "/api/session/".to_owned().concat(encode_segment(session_id).as_str()).concat(
                    "/permission/",
                ).concat(encode_segment(request_id).as_str()).concat("/reply"),
                value_to_string(&single_value("decision", string_value(decision))),
            ),
        ),
        None => None,
    }
}

/// What any other reply is refused with.
pub fn unsupported_reply() -> (message: &'static str)
    ensures
        message@ == "opencode only supports once/always/reject replies"@,
{
    "opencode only supports once/always/reject replies"
}

/// The value that one line of an event stream carries.
pub open spec fn sse_data(line: Seq<char>) -> Option<JsonView> {
    let content = text::trimmed(line);
    if !text::stands_at(content, "data:"@, 0) {
        None
    } else {
        let payload = text::trimmed(content.skip("data:"@.len() as int));
        if payload.len() == 0 {
            None
        } else {
            json::parsed_text(payload)
        }
    }
}

/// The value that one line of an event stream carries. Comments, names of events and
/// blank lines carry none.
pub fn parse_sse_data(line: &str) -> (value: Option<Json>)
    ensures
        json::opt_json(value) == sse_data(line@),
{
    let content = trim(line);
    if !text::starts_with(content, "data:") {
        return None;
    }
    proof {
        reveal_strlit("data:");
    }
    let payload = content.substring_char(5, content.unicode_len());
    assert(payload@ == content@.skip(5));
    let payload = trim(payload);
    if payload.is_empty() {
        return None;
    }
    parse(payload)
}

pub open spec fn data_of(value: JsonView) -> JsonView {
    json::or_null(value.get("data"@))
}

/// The session that an event belongs to: the first text among the places where
/// events name it.
pub open spec fn session_of(value: JsonView) -> Option<Seq<char>> {
    json::first_of(
        json::str_of(value.get2("data"@, "sessionID"@)),
        json::first_of(
            json::str_of(value.get3("data"@, "part"@, "sessionID"@)),
            json::first_of(
                json::str_of(value.get("sessionID"@)),
                json::first_of(
                    json::str_of(value.get2("properties"@, "sessionID"@)),
                    json::str_of(value.get3("properties"@, "part"@, "sessionID"@)),
                ),
            ),
        ),
    )
}

fn event_session<'a>(value: &'a Json) -> (session: Option<&'a str>)
    ensures
        json::opt_str(session) == session_of(value@),
{
    if let Some(id) = read_str(value.get2("data", "sessionID")) {
        return Some(id);
    }
    if let Some(id) = read_str(value.get3("data", "part", "sessionID")) {
        return Some(id);
    }
    if let Some(id) = read_str(value.get("sessionID")) {
        return Some(id);
    }
    if let Some(id) = read_str(value.get2("properties", "sessionID")) {
        return Some(id);
    }
    read_str(value.get3("properties", "part", "sessionID"))
}

/// The piece of text that an event carries.
pub open spec fn piece_in(value: JsonView) -> Seq<char> {
    match json::first_of(
        json::str_of(value.get("delta"@)),
        json::first_of(
            json::str_of(value.get("text"@)),
            json::first_of(
                json::str_of(value.get2("properties"@, "delta"@)),
                json::first_of(
                    json::str_of(value.get3("properties"@, "part"@, "text"@)),
                    json::str_of(value.get2("part"@, "text"@)),
                ),
            ),
        ),
    ) {
        Some(piece) => piece,
        None => Seq::empty(),
    }
}

fn read_piece<'a>(value: &'a Json) -> (piece: &'a str)
    ensures
        piece@ == piece_in(value@),
{
    if let Some(piece) = read_str(value.get("delta")) {
        return piece;
    }
    if let Some(piece) = read_str(value.get("text")) {
        return piece;
    }
    if let Some(piece) = read_str(value.get2("properties", "delta")) {
        return piece;
    }
    if let Some(piece) = read_str(value.get3("properties", "part", "text")) {
        return piece;
    }
    read_text(value.get2("part", "text"))
}

pub open spec fn text_told(value: JsonView) -> Seq<EventView> {
    if piece_in(value).len() == 0 {
        Seq::empty()
    } else {
        seq![EventView::TextDelta { role: MessageRole::Assistant, text: piece_in(value) }]
    }
}

pub open spec fn reasoning_told(value: JsonView) -> Seq<EventView> {
    if piece_in(value).len() == 0 {
        Seq::empty()
    } else {
        seq![EventView::ReasoningDelta { text: piece_in(value) }]
    }
}

fn text_delta(value: &Json, events: &mut Vec<AgentStateEvent>)
    ensures
        model::event_views(final(events)@) == model::event_views(old(events)@) + text_told(value@),
{
    let piece = read_piece(value);
    if !piece.is_empty() {
        record(
            events,
            AgentStateEvent::TextDelta { role: MessageRole::Assistant, text: piece.to_owned() },
        );
    }
}

fn reasoning_delta(value: &Json, events: &mut Vec<AgentStateEvent>)
    ensures
        model::event_views(final(events)@) == model::event_views(old(events)@) + reasoning_told(
            value@,
        ),
{
    let piece = read_piece(value);
    if !piece.is_empty() {
        record(events, AgentStateEvent::ReasoningDelta { text: piece.to_owned() });
    }
}

/// An update of the tool call that `data` names.
pub open spec fn update_told(data: JsonView, partial: JsonView) -> Seq<EventView> {
    match json::str_of(data.get("id"@)) {
        Some(id) => seq![EventView::ToolUpdated { id, partial }],
        None => Seq::empty(),
    }
}

fn tool_updated(data: &Json, partial: Json, events: &mut Vec<AgentStateEvent>)
    ensures
        model::event_views(final(events)@) == model::event_views(old(events)@) + update_told(
            data@,
            partial@,
        ),
{
    if let Some(id) = read_str(data.get("id")) {
        record(events, AgentStateEvent::ToolUpdated { id: id.to_owned(), partial });
    }
}

/// The value that a text holds.
pub open spec fn value_in_text(value: Option<JsonView>) -> JsonView {
    match json::str_of(value) {
        Some(text) => json::or_null(json::parsed_text(text)),
        None => JsonView::Null,
    }
}

fn read_value_in_text(value: Option<&Json>) -> (inner: Json)
    ensures
        inner@ == value_in_text(json::opt_json_ref(value)),
{
    match read_str(value) {
        Some(text) => match parse(text) {
            Some(inner) => inner,
            None => Json::Null,
        },
        None => Json::Null,
    }
}

/// The usage that a value reports.
pub open spec fn usage_in(value: JsonView) -> AgentUsage {
    let tokens = json::or_null(value.get("tokens"@));
    AgentUsage {
        input_tokens: tokens.count("input"@),
        output_tokens: tokens.count("output"@),
        reasoning_tokens: tokens.count("reasoning"@),
        cache_read_tokens: json::count_of(tokens.get2("cache"@, "read"@)),
        cache_write_tokens: json::count_of(tokens.get2("cache"@, "write"@)),
        cost_usd: model::reported(json::double_of(value.get("cost"@))),
    }
}

pub open spec fn usage_told(value: JsonView) -> Seq<EventView> {
    if usage_in(value) == model::no_usage() {
        Seq::empty()
    } else {
        seq![EventView::Usage { usage: usage_in(value) }]
    }
}

fn usage_event(value: &Json, events: &mut Vec<AgentStateEvent>)
    ensures
        model::event_views(final(events)@) == model::event_views(old(events)@) + usage_told(value@),
{
    let tokens = copied_or_null(value.get("tokens"));
    let usage = AgentUsage {
        input_tokens: tokens.count("input"),
        output_tokens: tokens.count("output"),
        reasoning_tokens: tokens.count("reasoning"),
        cache_read_tokens: read_count(tokens.get2("cache", "read")),
        cache_write_tokens: read_count(tokens.get2("cache", "write")),
        cost_usd: reported_cost(read_double(value.get("cost"))),
    };
    if !usage.is_empty() {
        record(events, AgentStateEvent::Usage { usage });
    }
}

/// What an error is called.
pub open spec fn error_text(data: JsonView) -> Seq<char> {
    let message = json::text_of(
        json::first_of(
            data.get2("error"@, "message"@),
            json::first_of(data.get2("error"@, "type"@), data.get("message"@)),
        ),
    );
    if text::trimmed(message).len() == 0 {
        "opencode error"@
    } else {
        message
    }
}

/// What an error is called.
pub fn error_message(data: &Json) -> (message: String)
    ensures
        message@ == error_text(data@),
{
    let found = match data.get2("error", "message") {
        Some(found) => Some(found),
        None => match data.get2("error", "type") {
            Some(found) => Some(found),
            None => data.get("message"),
        },
    };
    let message = read_text(found);
    if trim(message).is_empty() {
        assert(text::trimmed(Seq::<char>::empty()).len() == 0);
        "opencode error".to_owned()
    } else {
        message.to_owned()
    }
}

/// Whether an event of an earlier version tells that the session is at rest.
pub open spec fn status_idle(value: JsonView) -> bool {
    json::text_of(
        json::first_of(
            value.get3("properties"@, "status"@, "type"@),
            json::first_of(
                value.get3("data"@, "status"@, "type"@),
                json::first_of(
                    value.get2("properties"@, "status"@),
                    value.get2("data"@, "status"@),
                ),
            ),
        ),
    ) == "idle"@
}

fn legacy_status(value: &Json) -> (idle: bool)
    ensures
        idle == status_idle(value@),
{
    let status = match value.get3("properties", "status", "type") {
        Some(status) => Some(status),
        None => match value.get3("data", "status", "type") {
            Some(status) => Some(status),
            None => match value.get2("properties", "status") {
                Some(status) => Some(status),
                None => value.get2("data", "status"),
            },
        },
    };
    str_eq(read_text(status), "idle")
}

/// The role of an updated message, where the event names one.
pub open spec fn role_of(value: JsonView) -> Seq<char> {
    json::text_of(
        json::first_of(value.get3("properties"@, "info"@, "role"@), value.get2("data"@, "role"@)),
    )
}

fn message_role<'a>(value: &'a Json) -> (role: &'a str)
    ensures
        role@ == role_of(value@),
{
    match value.get3("properties", "info", "role") {
        Some(role) => read_text(Some(role)),
        None => read_text(value.get2("data", "role")),
    }
}

/// What a mapper remembers between two events.
pub struct MapperState {
    /// The names of the tools, by the ids of their calls.
    pub names: Map<Seq<char>, Seq<char>>,
    /// The permission requests that wait for their answers.
    pub outstanding: Set<Seq<char>>,
    pub last_title: Option<Seq<char>>,
}

/// What an event makes of a mapper, and what it tells.
pub struct MapStep {
    pub state: MapperState,
    pub told: Seq<EventView>,
}

/// What the user is asked where a permission is requested.
pub open spec fn permission_text(data: JsonView) -> Seq<char> {
    text::trimmed(
        "Allow "@ + data.text("action"@) + " "@ + text::linked(
            json::texts_in(data.get("resources"@)),
            ", "@,
        ),
    )
}

/// Whether an answer to a permission request may be kept.
pub open spec fn may_save(data: JsonView) -> bool {
    match json::items_of(data.get("save"@)) {
        Some(saved) => saved.len() > 0,
        None => false,
    }
}

/// The part that an event of an earlier version carries.
pub open spec fn part_of(value: JsonView) -> Option<JsonView> {
    json::first_of(
        value.get2("properties"@, "part"@),
        json::first_of(value.get2("data"@, "part"@), value.get("part"@)),
    )
}

fn legacy_part_of<'a>(value: &'a Json) -> (part: Option<&'a Json>)
    ensures
        json::opt_json_ref(part) == part_of(value@),
{
    match value.get2("properties", "part") {
        Some(part) => Some(part),
        None => match value.get2("data", "part") {
            Some(part) => Some(part),
            None => value.get("part"),
        },
    }
}

impl MapperState {
    /// A mapper that has seen nothing.
    pub open spec fn fresh() -> MapperState {
        MapperState { names: Map::empty(), outstanding: Set::empty(), last_title: None }
    }

    pub open spec fn silent(self) -> MapStep {
        MapStep { state: self, told: Seq::empty() }
    }

    pub open spec fn telling(self, told: Seq<EventView>) -> MapStep {
        MapStep { state: self, told }
    }

    /// A title is told where it is new.
    pub open spec fn on_title(self, data: JsonView) -> MapStep {
        let title = text::trimmed(json::text_of(data.get("title"@)));
        if title.len() == 0 || self.last_title == Some(title) {
            self.silent()
        } else {
            MapStep {
                state: MapperState { last_title: Some(title), ..self },
                told: seq![EventView::Title { title }],
            }
        }
    }

    pub open spec fn on_tool_start(self, data: JsonView) -> MapStep {
        match json::str_of(data.get("id"@)) {
            Some(id) => MapStep {
                state: MapperState { names: self.names.insert(id, data.text("name"@)), ..self },
                told: seq![
                    EventView::ToolStarted {
                        id,
                        name: data.text("name"@),
                        input: JsonView::Null,
                    },
                ],
            },
            None => self.silent(),
        }
    }

    pub open spec fn end_told(self, data: JsonView, ok: bool) -> Seq<EventView> {
        match json::str_of(data.get("id"@)) {
            Some(id) => seq![
                EventView::ToolFinished {
                    id,
                    name: match table::lookup(self.names, id) {
                        Some(name) => name,
                        None => data.text("name"@),
                    },
                    ok,
                    output: json::first_of(
                        data.get("content"@),
                        json::first_of(data.get("error"@), data.get("output"@)),
                    ),
                },
            ],
            None => Seq::empty(),
        }
    }

    /// A permission request is told once while it waits.
    pub open spec fn on_permission(self, data: JsonView) -> MapStep {
        match json::str_of(data.get("id"@)) {
            Some(id) => if self.outstanding.contains(id) {
                self.silent()
            } else {
                MapStep {
                    state: MapperState { outstanding: self.outstanding.insert(id), ..self },
                    told: seq![
                        EventView::InputRequested {
                            request: InputRequestView {
                                id,
                                kind: AwaitingInputKind::Permission,
                                message: permission_text(data),
                                options: seq!["Allow once"@, "Allow always"@, "Reject"@],
                                allow_always: may_save(data),
                            },
                        },
                    ],
                }
            },
            None => self.silent(),
        }
    }

    pub open spec fn on_resolved(self, data: JsonView) -> MapStep {
        match json::str_of(json::first_of(data.get("requestID"@), data.get("id"@))) {
            Some(id) => MapStep {
                state: MapperState { outstanding: self.outstanding.remove(id), ..self },
                told: seq![EventView::InputResolved { id }],
            },
            None => self.silent(),
        }
    }

    pub open spec fn on_legacy_tool(self, part: JsonView) -> MapStep {
        let id = json::text_of(json::first_of(part.get("callID"@), part.get("id"@)));
        let name = json::text_of(json::first_of(part.get("tool"@), part.get("name"@)));
        let status = match json::str_of(part.get2("state"@, "status"@)) {
            Some(status) => status,
            None => "running"@,
        };
        MapStep {
            state: MapperState {
                names: if name.len() > 0 {
                    self.names.insert(id, name)
                } else {
                    self.names
                },
                ..self
            },
            told: if status == "completed"@ || status == "error"@ {
                seq![
                    EventView::ToolFinished {
                        id,
                        name,
                        ok: status == "completed"@,
                        output: json::first_of(
                            part.get2("state"@, "output"@),
                            part.get2("state"@, "error"@),
                        ),
                    },
                ]
            } else {
                seq![
                    EventView::ToolStarted {
                        id,
                        name,
                        input: json::or_null(part.get2("state"@, "input"@)),
                    },
                ]
            },
        }
    }

    pub open spec fn on_legacy_part(self, value: JsonView) -> MapStep {
        let part = part_of(value);
        let kind = match part {
            Some(part) => part.text("type"@),
            None => Seq::empty(),
        };
        if kind == "text"@ {
            self.telling(text_told(value))
        } else if kind == "reasoning"@ {
            self.telling(reasoning_told(value))
        } else if kind == "step-start"@ {
            self.telling(seq![EventView::TurnStarted])
        } else if kind == "step-finish"@ {
            self.telling(
                usage_told(
                    match value.get2("properties"@, "part"@) {
                        Some(part) => part,
                        None => value,
                    },
                ),
            )
        } else if kind == "tool"@ {
            self.on_legacy_tool(
                match part {
                    Some(part) => part,
                    None => value,
                },
            )
        } else {
            self.silent()
        }
    }

    /// What an event of the session makes of the mapper.
    #[verifier::opaque]
    pub open spec fn on_own(self, value: JsonView, session: Seq<char>) -> MapStep {
        let kind = value.text("type"@);
        let data = data_of(value);
        if kind == "session.created"@ {
            let titled = self.on_title(data);
            MapStep {
                state: titled.state,
                told: seq![
                    EventView::Session { session_id: Some(session), title: None, model: None },
                ] + titled.told,
            }
        } else if kind == "session.renamed"@ || kind == "session.updated"@ {
            self.on_title(data)
        } else if kind == "session.execution.started"@ || kind == "session.step.started"@ {
            self.telling(seq![EventView::TurnStarted])
        } else if kind == "message.updated"@ {
            if role_of(value) == "assistant"@ {
                self.telling(seq![EventView::TurnStarted])
            } else {
                self.silent()
            }
        } else if kind == "session.text.delta"@ {
            self.telling(text_told(data))
        } else if kind == "session.reasoning.delta"@ {
            self.telling(reasoning_told(data))
        } else if kind == "session.tool.input.started"@ {
            self.on_tool_start(data)
        } else if kind == "session.tool.input.ended"@ {
            self.telling(update_told(data, value_in_text(data.get("text"@))))
        } else if kind == "session.tool.called"@ {
            self.telling(update_told(data, json::or_null(data.get("input"@))))
        } else if kind == "session.tool.progress"@ {
            self.telling(update_told(data, json::or_null(data.get("metadata"@))))
        } else if kind == "session.tool.success"@ {
            self.telling(self.end_told(data, true))
        } else if kind == "session.tool.failed"@ {
            self.telling(self.end_told(data, false))
        } else if kind == "session.step.ended"@ || kind == "session.usage.updated"@ || kind
            == "session.usage.recorded"@ {
            self.telling(usage_told(data))
        } else if kind == "session.execution.succeeded"@ || kind == "session.idle"@ {
            self.telling(seq![EventView::Idle { outcome: IdleOutcome::Succeeded }])
        } else if kind == "session.execution.interrupted"@ {
            self.telling(seq![EventView::Idle { outcome: IdleOutcome::Interrupted }])
        } else if kind == "session.execution.failed"@ {
            self.telling(
                seq![
                    EventView::Error { message: error_text(data) },
                    EventView::Idle { outcome: IdleOutcome::Failed },
                ],
            )
        } else if kind == "session.step.failed"@ || kind == "session.error"@ {
            self.telling(seq![EventView::Error { message: error_text(data) }])
        } else if kind == "permission.asked"@ {
            self.on_permission(data)
        } else if kind == "permission.replied"@ || kind == "permission.rejected"@ {
            self.on_resolved(data)
        } else if kind == "message.part.updated"@ {
            self.on_legacy_part(value)
        } else if kind == "session.status"@ && status_idle(value) {
            self.telling(seq![EventView::Idle { outcome: IdleOutcome::Succeeded }])
        } else {
            self.silent()
        }
    }

    /// What an event makes of the mapper. Events of other sessions, and those of
    /// none, are not its own.
    pub open spec fn on_event(self, value: JsonView, session: Seq<char>) -> MapStep {
        if session_of(value) == Some(session) {
            self.on_own(value, session)
        } else {
            self.silent()
        }
    }
}

/// That a request waits; it says nothing more.
#[derive(Debug)]
pub struct Waiting {}

impl View for Waiting {
    type V = Waiting;

    open spec fn view(&self) -> Waiting {
        *self
    }
}

/// Maps the events of one session, remembering what later events leave out.
#[derive(Debug)]
pub struct Mapper {
    names: Table<String>,
    /// The requests that wait, by their ids.
    outstanding: Table<Waiting>,
    last_title: Option<String>,
}

impl View for Mapper {
    type V = MapperState;

    closed spec fn view(&self) -> MapperState {
        MapperState {
            names: self.names@,
            outstanding: self.outstanding@.dom(),
            last_title: model::opt_text(self.last_title),
        }
    }
}

impl Default for Mapper {
    fn default() -> (mapper: Mapper)
        ensures
            mapper@ == MapperState::fresh(),
    {
        let mapper = Mapper { names: Table::new(), outstanding: Table::new(), last_title: None };
        assert(mapper@.outstanding =~= Set::<Seq<char>>::empty());
        mapper
    }
}

impl Mapper {
    /// Tells a title where it is new.
    pub fn title_event(&mut self, data: &Json, events: &mut Vec<AgentStateEvent>)
        ensures
            final(self)@ == old(self)@.on_title(data@).state,
            model::event_views(final(events)@) == model::event_views(old(events)@) + old(
                self,
            )@.on_title(data@).told,
    {
        let title = trim(read_text(data.get("title")));
        let known = match &self.last_title {
            Some(last) => str_eq(last.as_str(), title),
            None => false,
        };
        if title.is_empty() || known {
            return;
        }
        self.last_title = Some(title.to_owned());
        record(events, AgentStateEvent::Title { title: title.to_owned() });
    }

    fn tool_started(&mut self, data: &Json, events: &mut Vec<AgentStateEvent>)
        ensures
            final(self)@ == old(self)@.on_tool_start(data@).state,
            model::event_views(final(events)@) == model::event_views(old(events)@) + old(
                self,
            )@.on_tool_start(data@).told,
    {
        if let Some(id) = read_str(data.get("id")) {
            let name = data.text("name");
            self.names.insert(id.to_owned(), name.to_owned());
            record(
                events,
                AgentStateEvent::ToolStarted {
                    id: id.to_owned(),
                    name: name.to_owned(),
                    input: Json::Null,
                },
            );
        }
    }

    fn tool_finished(&self, data: &Json, ok: bool, events: &mut Vec<AgentStateEvent>)
        ensures
            model::event_views(final(events)@) == model::event_views(old(events)@)
                + self@.end_told(data@, ok),
    {
        if let Some(id) = read_str(data.get("id")) {
            let name = match self.names.get(id) {
                Some(name) => name.clone(),
                None => data.text("name").to_owned(),
            };
            let output = match data.get("content") {
                Some(output) => Some(output),
                None => match data.get("error") {
                    Some(output) => Some(output),
                    None => data.get("output"),
                },
            };
            record(
                events,
                AgentStateEvent::ToolFinished { id: id.to_owned(), name, ok, output: copied(output) },
            );
        }
    }

    /// Tells a permission request, once while it waits.
    pub fn permission_event(&mut self, data: &Json, events: &mut Vec<AgentStateEvent>)
        ensures
            final(self)@ == old(self)@.on_permission(data@).state,
            model::event_views(final(events)@) == model::event_views(old(events)@) + old(
                self,
            )@.on_permission(data@).told,
    {
        let id = match read_str(data.get("id")) {
            Some(id) => id,
            None => {
                return;
            },
        };
        if self.outstanding.contains_key(id) {
            return;
        }
        let ghost before = self@;
        self.outstanding.insert(id.to_owned(), Waiting {  });
        assert(self@.outstanding =~= before.outstanding.insert(id@));
        let resources = link(&read_texts(data.get("resources")), ", ");
        let message = "Allow ".to_owned().concat(data.text("action")).concat(" ").concat(
            resources.as_str(),
        );
        let allow_always = match data.get("save") {
            Some(saved) => match saved.as_array() {
                Some(items) => items.len() > 0,
                None => false,
            },
            None => false,
        };
        let answers = ["Allow once", "Allow always", "Reject"];
        let options = texts(&answers);
        assert(text::views(options@) == seq!["Allow once"@, "Allow always"@, "Reject"@]);
        record(
            events,
            AgentStateEvent::InputRequested {
                request: InputRequest {
                    id: id.to_owned(),
                    kind: AwaitingInputKind::Permission,
                    message: trim(message.as_str()).to_owned(),
                    options,
                    allow_always,
                },
            },
        );
    }

    fn permission_resolved(&mut self, data: &Json, events: &mut Vec<AgentStateEvent>)
        ensures
            final(self)@ == old(self)@.on_resolved(data@).state,
            model::event_views(final(events)@) == model::event_views(old(events)@) + old(
                self,
            )@.on_resolved(data@).told,
    {
        let found = match data.get("requestID") {
            Some(found) => Some(found),
            None => data.get("id"),
        };
        if let Some(id) = read_str(found) {
            let ghost before = self@;
            let _ = self.outstanding.remove(id);
            assert(self@.outstanding =~= before.outstanding.remove(id@));
            record(events, AgentStateEvent::InputResolved { id: id.to_owned() });
        }
    }

    fn legacy_tool(&mut self, part: &Json, events: &mut Vec<AgentStateEvent>)
        ensures
            final(self)@ == old(self)@.on_legacy_tool(part@).state,
            model::event_views(final(events)@) == model::event_views(old(events)@) + old(
                self,
            )@.on_legacy_tool(part@).told,
    {
        let id = match part.get("callID") {
            Some(id) => read_text(Some(id)),
            None => read_text(part.get("id")),
        };
        let name = match part.get("tool") {
            Some(name) => read_text(Some(name)),
            None => read_text(part.get("name")),
        };
        if !name.is_empty() {
            self.names.insert(id.to_owned(), name.to_owned());
        }
        let status = match read_str(part.get2("state", "status")) {
            Some(status) => status,
            None => "running",
        };
        if str_eq(status, "completed") || str_eq(status, "error") {
            let output = match part.get2("state", "output") {
                Some(output) => Some(output),
                None => part.get2("state", "error"),
            };
            record(
                events,
                AgentStateEvent::ToolFinished {
                    id: id.to_owned(),
                    name: name.to_owned(),
                    ok: str_eq(status, "completed"),
                    output: copied(output),
                },
            );
        } else {
            record(
                events,
                AgentStateEvent::ToolStarted {
                    id: id.to_owned(),
                    name: name.to_owned(),
                    input: copied_or_null(part.get2("state", "input")),
                },
            );
        }
    }

    fn legacy_part(&mut self, value: &Json, events: &mut Vec<AgentStateEvent>)
        ensures
            final(self)@ == old(self)@.on_legacy_part(value@).state,
            model::event_views(final(events)@) == model::event_views(old(events)@) + old(
                self,
            )@.on_legacy_part(value@).told,
    {
        let part = legacy_part_of(value);
        let kind = match part {
            Some(part) => part.text("type"),
            None => read_text(None),
        };
        if str_eq(kind, "text") {
            text_delta(value, events);
        } else if str_eq(kind, "reasoning") {
            reasoning_delta(value, events);
        } else if str_eq(kind, "step-start") {
            record(events, AgentStateEvent::TurnStarted);
        } else if str_eq(kind, "step-finish") {
            match value.get2("properties", "part") {
                Some(part) => usage_event(part, events),
                None => usage_event(value, events),
            }
        } else if str_eq(kind, "tool") {
            match part {
                Some(part) => self.legacy_tool(part, events),
                None => self.legacy_tool(value, events),
            }
        }
    }

    fn map_own(&mut self, value: &Json, session_id: &str, events: &mut Vec<AgentStateEvent>)
        ensures
            final(self)@ == old(self)@.on_own(value@, session_id@).state,
            model::event_views(final(events)@) == model::event_views(old(events)@) + old(
                self,
            )@.on_own(value@, session_id@).told,
    {
        reveal(MapperState::on_own);
        let kind = value.text("type");
        let data = copied_or_null(value.get("data"));
        if str_eq(kind, "session.created") {
            record(
                events,
                AgentStateEvent::Session {
                    session_id: Some(session_id.to_owned()),
                    title: None,
                    model: None,
                },
            );
            self.title_event(&data, events);
        } else if str_eq(kind, "session.renamed") || str_eq(kind, "session.updated") {
            self.title_event(&data, events);
        } else if str_eq(kind, "session.execution.started") || str_eq(
            kind,
            "session.step.started",
        ) {
            record(events, AgentStateEvent::TurnStarted);
        } else if str_eq(kind, "message.updated") {
            if str_eq(message_role(value), "assistant") {
                record(events, AgentStateEvent::TurnStarted);
            }
        } else if str_eq(kind, "session.text.delta") {
            text_delta(&data, events);
        } else if str_eq(kind, "session.reasoning.delta") {
            reasoning_delta(&data, events);
        } else if str_eq(kind, "session.tool.input.started") {
            self.tool_started(&data, events);
        } else if str_eq(kind, "session.tool.input.ended") {
            tool_updated(&data, read_value_in_text(data.get("text")), events);
        } else if str_eq(kind, "session.tool.called") {
            tool_updated(&data, copied_or_null(data.get("input")), events);
        } else if str_eq(kind, "session.tool.progress") {
            tool_updated(&data, copied_or_null(data.get("metadata")), events);
        } else if str_eq(kind, "session.tool.success") {
            self.tool_finished(&data, true, events);
        } else if str_eq(kind, "session.tool.failed") {
            self.tool_finished(&data, false, events);
        } else if str_eq(kind, "session.step.ended") || str_eq(kind, "session.usage.updated")
            || str_eq(kind, "session.usage.recorded") {
            usage_event(&data, events);
        } else if str_eq(kind, "session.execution.succeeded") || str_eq(kind, "session.idle") {
            record(events, AgentStateEvent::Idle { outcome: IdleOutcome::Succeeded });
        } else if str_eq(kind, "session.execution.interrupted") {
            record(events, AgentStateEvent::Idle { outcome: IdleOutcome::Interrupted });
        } else if str_eq(kind, "session.execution.failed") {
            record(events, AgentStateEvent::Error { message: error_message(&data) });
            record(events, AgentStateEvent::Idle { outcome: IdleOutcome::Failed });
        } else if str_eq(kind, "session.step.failed") || str_eq(kind, "session.error") {
            record(events, AgentStateEvent::Error { message: error_message(&data) });
        } else if str_eq(kind, "permission.asked") {
            self.permission_event(&data, events);
        } else if str_eq(kind, "permission.replied") || str_eq(kind, "permission.rejected") {
            self.permission_resolved(&data, events);
        } else if str_eq(kind, "message.part.updated") {
            self.legacy_part(value, events);
        } else if str_eq(kind, "session.status") && legacy_status(value) {
            record(events, AgentStateEvent::Idle { outcome: IdleOutcome::Succeeded });
        }
    }

    /// What one event tells of the session.
    pub fn map(&mut self, value: &Json, session_id: &str) -> (events: Vec<AgentStateEvent>)
        ensures
            final(self)@ == old(self)@.on_event(value@, session_id@).state,
            model::event_views(events@) == old(self)@.on_event(value@, session_id@).told,
    {
        let mut events: Vec<AgentStateEvent> = Vec::new();
        assert(model::event_views(events@) == Seq::<EventView>::empty());
        let own = match event_session(value) {
            Some(session) => str_eq(session, session_id),
            None => false,
        };
        if own {
            self.map_own(value, session_id, &mut events);
            assert(Seq::<EventView>::empty() + self_told(old(self)@, value@, session_id@)
                == self_told(old(self)@, value@, session_id@));
        }
        events
    }
}

spec fn self_told(state: MapperState, value: JsonView, session: Seq<char>) -> Seq<EventView> {
    state.on_own(value, session).told
}

/// What one event tells of a session to one who has seen none before it.
pub fn map_event(value: &Json, session_id: &str) -> (events: Vec<AgentStateEvent>)
    ensures
        model::event_views(events@) == MapperState::fresh().on_event(value@, session_id@).told,
{
    let mut mapper = Mapper::default();
    mapper.map(value, session_id)
}

/// The events up to the first that tells the session to be at rest, with it.
pub open spec fn until_rest(events: Seq<EventView>) -> Seq<EventView>
    decreases events.len(),
{
    if events.len() == 0 {
        events
    } else if events[0] is Idle {
        seq![events[0]]
    } else {
        seq![events[0]] + until_rest(events.skip(1))
    }
}

/// Whether one of the events tells the session to be at rest.
pub open spec fn tells_rest(events: Seq<EventView>) -> bool {
    exists|i: int| 0 <= i < events.len() && #[trigger] events[i] is Idle
}

proof fn lemma_until_rest(events: Seq<EventView>, at: int)
    requires
        0 <= at <= events.len(),
        forall|k: int| 0 <= k < at ==> !(#[trigger] events[k] is Idle),
        at < events.len() ==> events[at] is Idle,
    ensures
        until_rest(events) == if at < events.len() {
            events.take(at + 1)
        } else {
            events
        },
    decreases at,
{
    if at == 0 {
        if events.len() > 0 {
            assert(events.take(1) == seq![events[0]]);
        }
    } else {
        let rest = events.skip(1);
        assert forall|k: int| 0 <= k < at - 1 implies !(#[trigger] rest[k] is Idle) by {
            assert(rest[k] == events[k + 1]);
        }
        lemma_until_rest(rest, at - 1);
        if at < events.len() {
            assert(seq![events[0]] + rest.take(at) == events.take(at + 1));
        } else {
            assert(seq![events[0]] + rest == events);
        }
    }
}

/// Cuts the events behind the first that tells the session to be at rest, and says
/// whether there is one.
pub fn cut_at_rest(events: &mut Vec<AgentStateEvent>) -> (terminal: bool)
    ensures
        terminal == tells_rest(model::event_views(old(events)@)),
        model::event_views(final(events)@) == until_rest(model::event_views(old(events)@)),
{
    let ghost all = model::event_views(events@);
    let mut at: usize = 0;
    while at < events.len()
        invariant
            at <= events@.len(),
            all == model::event_views(events@),
            all == model::event_views(old(events)@),
            forall|k: int| 0 <= k < at ==> !(#[trigger] all[k] is Idle),
        decreases events@.len() - at,
    {
        assert(all[at as int] == events@[at as int]@);
        if let AgentStateEvent::Idle { .. } = &events[at] {
            proof {
                lemma_until_rest(all, at as int);
            }
            let ghost before = events@;
            let _ = events.split_off(at + 1);
            assert(model::event_views(events@) == all.take(at + 1));
            return true;
        }
        at += 1;
    }
    proof {
        lemma_until_rest(all, at as int);
    }
    false
}

/// What a stream of events has come to.
pub struct StreamView {
    pub state: MapperState,
    /// The text behind the last complete line.
    pub rest: Seq<char>,
    pub told: Seq<EventView>,
    /// Whether the session was told to be at rest; nothing is read behind that.
    pub terminal: bool,
}

/// What the complete lines of `buffer` come to.
pub open spec fn stream_read(
    state: MapperState,
    session: Seq<char>,
    buffer: Seq<char>,
) -> StreamView
    decreases buffer.len(),
{
    let at = text::line_end(buffer);
    if at < 0 || at >= buffer.len() {
        StreamView { state, rest: buffer, told: Seq::empty(), terminal: false }
    } else {
        let left = buffer.skip(at + 1);
        match sse_data(buffer.take(at)) {
            Some(value) => {
                let step = state.on_event(value, session);
                if tells_rest(step.told) {
                    StreamView {
                        state: step.state,
                        rest: left,
                        told: until_rest(step.told),
                        terminal: true,
                    }
                } else {
                    let more = stream_read(step.state, session, left);
                    StreamView { told: step.told + more.told, ..more }
                }
            },
            None => stream_read(state, session, left),
        }
    }
}

/// A subscription to the events of one session.
#[derive(Debug)]
pub struct EventStream {
    pub session: String,
    pub buffer: Vec<char>,
}

impl EventStream {
    pub fn new(session: String) -> (stream: EventStream)
        ensures
            stream.session == session,
            stream.buffer@ == Seq::<char>::empty(),
    {
        EventStream { session, buffer: Vec::new() }
    }

    fn read_line(&mut self) -> (line: Option<String>)
        ensures
            final(self).session == old(self).session,
            ({
                let at = text::line_end(old(self).buffer@);
                match line {
                    Some(line) => {
                        &&& 0 <= at < old(self).buffer@.len()
                        &&& line@ == old(self).buffer@.take(at)
                        &&& final(self).buffer@ == old(self).buffer@.skip(at + 1)
                    },
                    None => !(0 <= at < old(self).buffer@.len()) && final(self).buffer@ == old(
                        self,
                    ).buffer@,
                }
            }),
    {
        let mut at: usize = 0;
        let ghost all = self.buffer@;
        assert(all.skip(0) == all);
        while at < self.buffer.len() && self.buffer[at] != '\n'
            invariant
                at <= self.buffer@.len(),
                self.buffer@ == all,
                self.session == old(self).session,
                text::line_end(all) == at + text::line_end(all.skip(at as int)),
            decreases self.buffer@.len() - at,
        {
            assert(all.skip(at as int).skip(1) == all.skip(at + 1));
            at += 1;
        }
        if at < self.buffer.len() {
            let line = string_from(&self.buffer, 0, at);
            assert(all.subrange(0, at as int) == all.take(at as int));
            let rest = self.buffer.split_off(at + 1);
            assert(rest@ == all.skip(at + 1));
            self.buffer = rest;
            Some(line)
        } else {
            None
        }
    }

    /// Takes one more chunk of the stream. Returns the events that its complete lines
    /// tell, up to the first that tells the session to be at rest, and whether there
    /// was one.
    pub fn push(&mut self, chunk: &[u8], mapper: &mut Mapper) -> (read: (
        Vec<AgentStateEvent>,
        bool,
    ))
        ensures
            final(self).session == old(self).session,
            ({
                let whole = stream_read(
                    old(mapper)@,
                    old(self).session@,
                    old(self).buffer@ + lines::lossy_text(chunk@),
                );
                &&& final(mapper)@ == whole.state
                &&& final(self).buffer@ == whole.rest
                &&& model::event_views(read.0@) == whole.told
                &&& read.1 == whole.terminal
            }),
    {
        let mut more = chars_of(decode_lossy(chunk).as_str());
        let ghost before = self.buffer@;
        let ghost arrived = more@;
        self.buffer.append(&mut more);
        assert(self.buffer@ == before + arrived);
        let ghost start = self.buffer@;
        let ghost first = mapper@;
        let ghost goal = stream_read(first, self.session@, start);
        let mut told: Vec<AgentStateEvent> = Vec::new();
        assert(model::event_views(told@) == Seq::<EventView>::empty());
        assert(model::event_views(told@) + goal.told == goal.told);
        loop
            invariant
                self.session == old(self).session,
                goal == stream_read(first, self.session@, start),
                ({
                    let left = stream_read(mapper@, self.session@, self.buffer@);
                    &&& goal.state == left.state
                    &&& goal.rest == left.rest
                    &&& goal.terminal == left.terminal
                    &&& goal.told == model::event_views(told@) + left.told
                }),
                first == old(mapper)@,
                start == old(self).buffer@ + lines::lossy_text(chunk@),
            decreases self.buffer@.len(),
        {
            let ghost so_far = model::event_views(told@);
            let ghost state = mapper@;
            let ghost left = stream_read(state, self.session@, self.buffer@);
            match self.read_line() {
                None => {
                    assert(so_far + Seq::<EventView>::empty() == so_far);
                    return (told, false);
                },
                Some(line) => {
                    if let Some(value) = parse_sse_data(line.as_str()) {
                        let mut events = mapper.map(&value, self.session.as_str());
                        let ghost step = state.on_event(value@, self.session@);
                        let terminal = cut_at_rest(&mut events);
                        let ghost cut = model::event_views(events@);
                        told.append(&mut events);
                        assert(model::event_views(told@) == so_far + cut);
                        if terminal {
                            return (told, true);
                        }
                        proof {
                            lemma_no_rest(step.told);
                        }
                        assert(so_far + (step.told + stream_read(
                            step.state,
                            self.session@,
                            self.buffer@,
                        ).told) == (so_far + step.told) + stream_read(
                            step.state,
                            self.session@,
                            self.buffer@,
                        ).told);
                    }
                },
            }
        }
    }
}

proof fn lemma_no_rest(events: Seq<EventView>)
    requires
        !tells_rest(events),
    ensures
        until_rest(events) == events,
{
    lemma_until_rest(events, events.len() as int);
}

/// What the open permission requests of a session make of its mapper.
pub open spec fn pending_from(state: MapperState, items: Seq<JsonView>) -> MapStep
    decreases items.len(),
{
    if items.len() == 0 {
        state.silent()
    } else {
        let before = pending_from(state, items.drop_last());
        let step = before.state.on_permission(items.last());
        MapStep { state: step.state, told: before.told + step.told }
    }
}

/// What the list of open permission requests makes of a mapper.
pub open spec fn pending_in(state: MapperState, reply: JsonView) -> MapStep {
    match json::items_of(reply.get("data"@)) {
        Some(items) => pending_from(state, items),
        None => state.silent(),
    }
}

/// The outcome that a session's record names.
pub open spec fn outcome_in(data: JsonView) -> Option<IdleOutcome> {
    match json::str_of(data.get("outcome"@)) {
        Some(outcome) => if outcome == "succeeded"@ {
            Some(IdleOutcome::Succeeded)
        } else if outcome == "failed"@ {
            Some(IdleOutcome::Failed)
        } else if outcome == "interrupted"@ {
            Some(IdleOutcome::Interrupted)
        } else {
            None
        },
        None => None,
    }
}

/// What a session's record makes of its mapper.
pub open spec fn record_in(state: MapperState, reply: JsonView) -> MapStep {
    let data = data_of(reply);
    let titled = state.on_title(data);
    MapStep {
        state: titled.state,
        told: titled.told + match outcome_in(data) {
            Some(outcome) => seq![EventView::Idle { outcome }],
            None => Seq::empty(),
        },
    }
}

/// The path of a session's open permission requests.
pub fn permission_path(session: &str) -> (path: String)
    ensures
        path@ == "/api/session/"@ + server::encoded_text(session@) + "/permission"@,
{
    "/api/session/".to_owned().concat(encode_segment(session).as_str()).concat("/permission")
}

/// The path of a session's record.
pub fn session_path(session: &str) -> (path: String)
    ensures
        path@ == "/api/session/"@ + server::encoded_text(session@),
{
    "/api/session/".to_owned().concat(encode_segment(session).as_str())
}

impl Mapper {
    /// Tells the open permission requests that were not told yet.
    pub fn reconcile_permissions(&mut self, reply: &Json) -> (events: Vec<AgentStateEvent>)
        ensures
            final(self)@ == pending_in(old(self)@, reply@).state,
            model::event_views(events@) == pending_in(old(self)@, reply@).told,
    {
        let mut events: Vec<AgentStateEvent> = Vec::new();
        assert(model::event_views(events@) == Seq::<EventView>::empty());
        let data = match reply.get("data") {
            Some(data) => data.as_array(),
            None => None,
        };
        if let Some(items) = data {
            let ghost all = json::json_views(items@);
            let ghost start = self@;
            let mut i: usize = 0;
            assert(all.take(0).len() == 0);
            while i < items.len()
                invariant
                    i <= items@.len(),
                    all == json::json_views(items@),
                    self@ == pending_from(start, all.take(i as int)).state,
                    model::event_views(events@) == pending_from(start, all.take(i as int)).told,
                decreases items@.len() - i,
            {
                assert(all.take(i + 1).drop_last() == all.take(i as int));
                assert(all.take(i + 1).last() == items@[i as int]@);
                self.permission_event(&items[i], &mut events);
                i += 1;
            }
            assert(all.take(i as int) == all);
        }
        events
    }

    /// Tells what a session's record tells that is new, and whether the session has
    /// come to an end.
    pub fn reconcile_session(&mut self, reply: &Json) -> (read: (Vec<AgentStateEvent>, bool))
        ensures
            final(self)@ == record_in(old(self)@, reply@).state,
            model::event_views(read.0@) == record_in(old(self)@, reply@).told,
            read.1 == (outcome_in(data_of(reply@)) is Some),
    {
        let mut events: Vec<AgentStateEvent> = Vec::new();
        assert(model::event_views(events@) == Seq::<EventView>::empty());
        let data = copied_or_null(reply.get("data"));
        self.title_event(&data, &mut events);
        let ghost titled = old(self)@.on_title(data@).told;
        assert(model::event_views(events@) == titled);
        assert(titled + Seq::<EventView>::empty() == titled);
        let outcome = match read_str(data.get("outcome")) {
            Some(outcome) => {
                if str_eq(outcome, "succeeded") {
                    Some(IdleOutcome::Succeeded)
                } else if str_eq(outcome, "failed") {
                    Some(IdleOutcome::Failed)
                } else if str_eq(outcome, "interrupted") {
                    Some(IdleOutcome::Interrupted)
                } else {
                    None
                }
            },
            None => None,
        };
        match outcome {
            Some(outcome) => {
                record(&mut events, AgentStateEvent::Idle { outcome });
                (events, true)
            },
            None => (events, false),
        }
    }
}

/// The pause before a lost subscription is tried again, in milliseconds, after this
/// attempt; nothing where the session has come to an end, nobody listens any more, or
/// the last attempt is spent.
pub fn next_attempt(attempt: u32, ended: bool, closed: bool) -> (pause_ms: Option<u64>)
    ensures
        pause_ms == if ended || closed || attempt >= MAX_ATTEMPTS {
            None
        } else {
            Some(server::pause(attempt as nat) as u64)
        },
{
    if ended || closed || attempt >= MAX_ATTEMPTS {
        return None;
    }
    Some(backoff(attempt))
}

/// An event of another session changes nothing and tells nothing.
pub proof fn law_other_sessions_are_ignored(
    state: MapperState,
    value: JsonView,
    session: Seq<char>,
)
    requires
        session_of(value) != Some(session),
    ensures
        state.on_event(value, session) == state.silent(),
{
}

/// A permission request that waits is told once, however often it is seen: by events
/// or by a look at the server.
pub proof fn law_waiting_request_is_told_once(state: MapperState, data: JsonView)
    ensures
        state.on_permission(data).state.on_permission(data).told.len() == 0,
        state.on_permission(data).state.on_permission(data).state == state.on_permission(
            data,
        ).state,
{
}

/// A request that was resolved can be told anew.
pub proof fn law_resolved_request_no_longer_waits(state: MapperState, data: JsonView)
    requires
        json::str_of(json::first_of(data.get("requestID"@), data.get("id"@))) is Some,
    ensures
        !state.on_resolved(data).state.outstanding.contains(
            json::str_of(json::first_of(data.get("requestID"@), data.get("id"@)))->0,
        ),
{
}

/// A title is told once until another comes.
pub proof fn law_title_is_told_once(state: MapperState, data: JsonView)
    ensures
        state.on_title(data).state.on_title(data).told.len() == 0,
{
}

/// A finished tool call is named as it was when it started.
pub proof fn law_tool_keeps_its_name(state: MapperState, start: JsonView, end: JsonView, ok: bool)
    requires
        json::str_of(start.get("id"@)) is Some,
        json::str_of(end.get("id"@)) == json::str_of(start.get("id"@)),
    ensures
        state.on_tool_start(start).state.end_told(end, ok).len() == 1,
        state.on_tool_start(start).state.end_told(end, ok)[0]->ToolFinished_name == start.text(
            "name"@,
        ),
{
}

/// Nothing is told behind the end of a session.
pub proof fn law_nothing_follows_rest(events: Seq<EventView>)
    ensures
        ({
            let told = until_rest(events);
            forall|i: int| 0 <= i < told.len() - 1 ==> !(#[trigger] told[i] is Idle)
        }),
        tells_rest(events) ==> until_rest(events).last() is Idle,
    decreases events.len(),
{
    if events.len() > 0 && !(events[0] is Idle) {
        let rest = events.skip(1);
        law_nothing_follows_rest(rest);
        let told = until_rest(events);
        let later = until_rest(rest);
        assert forall|i: int| 0 <= i < told.len() - 1 implies !(#[trigger] told[i] is Idle) by {
            if i > 0 {
                assert(told[i] == later[i - 1]);
            }
        }
        if tells_rest(events) {
            let i = choose|i: int| 0 <= i < events.len() && #[trigger] events[i] is Idle;
            assert(rest[i - 1] == events[i]);
            assert(later.len() > 0);
            assert(told.last() == later.last());
        }
    }
}

} // verus!
