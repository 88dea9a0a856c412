//! pi's RPC protocol: the commands that are written to its stdin.
//!
//! pi reads one JSON object per line. Each command carries an id of its own. A
//! dialog is answered by a response with the id of the request; pi does not echo
//! the answer, so the resolution is told here.
use crate::agents::pi::json::PiJsonlParser;
use crate::agents::state::InputReply;
use crate::json;
use crate::json::{bool_value, object_value, string_value, value_to_string, JsonView};
use crate::model::{AgentStateEvent, EventView};
use crate::text;
use crate::text::to_decimal;
use vstd::prelude::*;

verus! {

/// Whether `line` is one line: its only line break ends it.
pub open spec fn one_line(line: Seq<char>) -> bool {
    &&& line.len() > 0
    &&& line.last() == '\n'
    &&& forall|i: int| 0 <= i < line.len() - 1 ==> line[i] != '\n' && line[i] != '\r'
}

/// The line that a value is written as.
pub open spec fn written_line(value: JsonView) -> Seq<char> {
    json::written(value).push('\n')
}

/// The id of the command with this number.
pub open spec fn command_id(n: u64) -> Seq<char> {
    "favetto-"@ + text::decimal(n as nat)
}

/// A command without arguments.
pub open spec fn plain_command(n: u64, kind: Seq<char>) -> JsonView {
    JsonView::Object(
        seq![("id"@, JsonView::Str(command_id(n))), ("type"@, JsonView::Str(kind))],
    )
}

/// The command that starts a turn.
pub open spec fn prompt_command(n: u64, message: Seq<char>) -> JsonView {
    JsonView::Object(
        seq![
            ("id"@, JsonView::Str(command_id(n))),
            ("message"@, JsonView::Str(message)),
            ("type"@, JsonView::Str("prompt"@)),
        ],
    )
}

/// A command as it is written: its id, and its line.
#[derive(Debug, PartialEq, Eq)]
pub struct PiCommand {
    pub id: String,
    pub line: String,
}

/// Whether a command is this value on one line, under this id.
pub open spec fn sends(command: PiCommand, id: Seq<char>, value: JsonView) -> bool {
    command.id@ == id && command.line@ == written_line(value) && one_line(command.line@)
}

fn line_of(value: &serde_json::Value) -> (line: String)
    ensures
        line@ == written_line(json::value_of(*value)),
        one_line(line@),
{
    let mut line = value_to_string(value);
    line.push('\n');
    line
}

/// Makes commands, each under a number of its own.
#[derive(Debug, PartialEq, Eq)]
pub struct PiRpcClient {
    pub next_id: u64,
}

impl PiRpcClient {
    pub fn new() -> (client: PiRpcClient)
        ensures
            client.next_id == 0,
    {
        PiRpcClient { next_id: 0 }
    }

    /// The id of the next command.
    pub fn next_id(&mut self) -> (id: String)
        ensures
            id@ == command_id(old(self).next_id),
            final(self).next_id == if old(self).next_id == u64::MAX {
                0
            } else {
                (old(self).next_id + 1) as u64
            },
    {
        let n: u64 = self.next_id;
        self.next_id = if n == u64::MAX {
            0
        } else {
            n + 1
        };
        "favetto-".to_owned().concat(to_decimal(n).as_str())
    }

    fn send(&mut self, kind: &str) -> (command: PiCommand)
        ensures
            sends(
                command,
                command_id(old(self).next_id),
                plain_command(old(self).next_id, kind@),
            ),
            final(self).next_id == if old(self).next_id == u64::MAX {
                0
            } else {
                (old(self).next_id + 1) as u64
            },
    {
        let ghost n = self.next_id;
        let id = self.next_id();
        let mut fields: Vec<(String, serde_json::Value)> = Vec::new();
        fields.push(("id".to_owned(), string_value(id.as_str())));
        fields.push(("type".to_owned(), string_value(kind)));
        proof {
            reveal_strlit("id");
            reveal_strlit("type");
            text::lemma_precedes_at("id"@, "type"@, 0);
        }
        let value = object_value(fields);
        assert(json::value_of(value)->Object_0 == plain_command(n, kind@)->Object_0);
        PiCommand { id, line: line_of(&value) }
    }

    /// Asks for the session's identity.
    pub fn get_state(&mut self) -> (command: PiCommand)
        ensures
            sends(
                command,
                command_id(old(self).next_id),
                plain_command(old(self).next_id, "get_state"@),
            ),
            final(self).next_id == if old(self).next_id == u64::MAX {
                0
            } else {
                (old(self).next_id + 1) as u64
            },
    {
        self.send("get_state")
    }

    /// Starts a turn.
    pub fn prompt(&mut self, message: &str) -> (command: PiCommand)
        ensures
            sends(
                command,
                command_id(old(self).next_id),
                prompt_command(old(self).next_id, message@),
            ),
            final(self).next_id == if old(self).next_id == u64::MAX {
                0
            } else {
                (old(self).next_id + 1) as u64
            },
    {
        let ghost n = self.next_id;
        let id = self.next_id();
        let mut fields: Vec<(String, serde_json::Value)> = Vec::new();
        fields.push(("id".to_owned(), string_value(id.as_str())));
        fields.push(("message".to_owned(), string_value(message)));
        fields.push(("type".to_owned(), string_value("prompt")));
        proof {
            reveal_strlit("id");
            reveal_strlit("message");
            reveal_strlit("type");
            text::lemma_precedes_at("id"@, "message"@, 0);
            text::lemma_precedes_at("message"@, "type"@, 0);
        }
        let value = object_value(fields);
        assert(json::value_of(value)->Object_0 == prompt_command(n, message@)->Object_0);
        PiCommand { id, line: line_of(&value) }
    }

    /// Asks for the messages of the session.
    pub fn get_messages(&mut self) -> (command: PiCommand)
        ensures
            sends(
                command,
                command_id(old(self).next_id),
                plain_command(old(self).next_id, "get_messages"@),
            ),
            final(self).next_id == if old(self).next_id == u64::MAX {
                0
            } else {
                (old(self).next_id + 1) as u64
            },
    {
        self.send("get_messages")
    }

    /// Stops the turn.
    pub fn abort(&mut self) -> (command: PiCommand)
        ensures
            sends(
                command,
                command_id(old(self).next_id),
                plain_command(old(self).next_id, "abort"@),
            ),
            final(self).next_id == if old(self).next_id == u64::MAX {
                0
            } else {
                (old(self).next_id + 1) as u64
            },
    {
        self.send("abort")
    }
}

/// Two commands of different numbers have different ids.
pub proof fn law_command_ids_differ(a: u64, b: u64)
    requires
        a != b,
    ensures
        command_id(a) != command_id(b),
{
    if command_id(a) == command_id(b) {
        let head = "favetto-"@.len() as int;
        assert(command_id(a).skip(head) == text::decimal(a as nat));
        assert(command_id(b).skip(head) == text::decimal(b as nat));
        text::lemma_decimal_injective(a as nat, b as nat);
    }
}

/// The observer of an unattended run.
#[derive(Debug, PartialEq, Eq)]
pub struct PiRpcSource {}

impl PiRpcSource {
    pub fn new() -> (source: PiRpcSource)
        ensures
            source == (PiRpcSource {  }),
    {
        PiRpcSource {  }
    }

    /// A stable label for diagnostics.
    pub fn label(&self) -> (label: &'static str)
        ensures
            label@ == "pi-rpc"@,
    {
        "pi-rpc"
    }

    /// Begins a run: what is written first, the client that goes on, and the parser
    /// of what is answered, which ends the run once it has settled.
    pub fn start(&self, prompt: &Option<String>) -> (begun: (
        Vec<PiCommand>,
        PiRpcClient,
        PiJsonlParser,
    ))
        ensures
            begun.0@.len() == if prompt is Some {
                2int
            } else {
                1
            },
            sends(begun.0@[0], command_id(0), plain_command(0, "get_state"@)),
            prompt is Some ==> sends(
                begun.0@[1],
                command_id(1),
                prompt_command(1, prompt->0@),
            ),
            begun.1.next_id == begun.0@.len(),
            begun.2@ == crate::agents::pi::json::PiState::start(true),
            begun.2.unread() == Seq::<u8>::empty(),
    {
        let mut client = PiRpcClient::new();
        let mut commands: Vec<PiCommand> = Vec::new();
        commands.push(client.get_state());
        if let Some(message) = prompt {
            commands.push(client.prompt(message.as_str()));
        }
        (commands, client, PiJsonlParser::with_channel(true))
    }
}

/// The response to a dialog.
pub open spec fn response_to(id: Seq<char>, reply: InputReply) -> JsonView {
    let kind = ("type"@, JsonView::Str("extension_ui_response"@));
    let request = ("id"@, JsonView::Str(id));
    JsonView::Object(
        match reply {
            InputReply::Value { value } => seq![request, kind, ("value"@, JsonView::Str(value@))],
            InputReply::Confirmed { confirmed } => seq![
                ("confirmed"@, JsonView::Bool(confirmed)),
                request,
                kind,
            ],
            InputReply::Cancelled => seq![("cancelled"@, JsonView::Bool(true)), request, kind],
            InputReply::Reject => seq![("cancelled"@, JsonView::Bool(true)), request, kind],
            InputReply::Once => seq![request, kind, ("value"@, JsonView::Str("Allow"@))],
            InputReply::Always => seq![request, kind, ("value"@, JsonView::Str("Allow"@))],
        },
    )
}

fn three_fields(
    a: &str,
    first: serde_json::Value,
    b: &str,
    second: serde_json::Value,
    c: &str,
    third: serde_json::Value,
) -> (value: serde_json::Value)
    requires
        text::precedes(a@, b@),
        text::precedes(b@, c@),
    ensures
        json::value_of(value) == JsonView::Object(
            seq![
                (a@, json::value_of(first)),
                (b@, json::value_of(second)),
                (c@, json::value_of(third)),
            ],
        ),
{
    let mut fields: Vec<(String, serde_json::Value)> = Vec::new();
    fields.push((a.to_owned(), first));
    fields.push((b.to_owned(), second));
    fields.push((c.to_owned(), third));
    let value = object_value(fields);
    assert(json::value_of(value)->Object_0 == seq![
        (a@, json::value_of(first)),
        (b@, json::value_of(second)),
        (c@, json::value_of(third)),
    ]);
    value
}

/// Builds the response to a dialog. A plain consent has no option to name, so it
/// names one that dialogs commonly have.
fn response_value(id: &str, reply: &InputReply) -> (value: serde_json::Value)
    ensures
        json::value_of(value) == response_to(id@, *reply),
{
    proof {
        reveal_strlit("id");
        reveal_strlit("type");
        reveal_strlit("value");
        reveal_strlit("confirmed");
        reveal_strlit("cancelled");
        text::lemma_precedes_at("id"@, "type"@, 0);
        text::lemma_precedes_at("type"@, "value"@, 0);
        text::lemma_precedes_at("confirmed"@, "id"@, 0);
        text::lemma_precedes_at("cancelled"@, "id"@, 0);
    }
    let request = string_value(id);
    let kind = string_value("extension_ui_response");
    match reply {
        InputReply::Value { value } => three_fields(
            "id",
            request,
            "type",
            kind,
            "value",
            string_value(value.as_str()),
        ),
        InputReply::Confirmed { confirmed } => three_fields(
            "confirmed",
            bool_value(*confirmed),
            "id",
            request,
            "type",
            kind,
        ),
        InputReply::Cancelled => three_fields(
            "cancelled",
            bool_value(true),
            "id",
            request,
            "type",
            kind,
        ),
        InputReply::Reject => three_fields("cancelled", bool_value(true), "id", request, "type", kind),
        InputReply::Once => three_fields(
            "id",
            request,
            "type",
            kind,
            "value",
            string_value("Allow"),
        ),
        InputReply::Always => three_fields(
            "id",
            request,
            "type",
            kind,
            "value",
            string_value("Allow"),
        ),
    }
}

/// Answers a dialog: the line to be written, and the event that tells that the
/// request is resolved.
pub fn write_reply(request_id: &str, reply: &InputReply) -> (answer: (String, AgentStateEvent))
    ensures
        answer.0@ == written_line(response_to(request_id@, *reply)),
        one_line(answer.0@),
        answer.1@ == (EventView::InputResolved { id: request_id@ }),
{
    let value = response_value(request_id, reply);
    (line_of(&value), AgentStateEvent::InputResolved { id: request_id.to_owned() })
}

} // verus!
