//! Chats about a task.
//!
//! A chat is a conversation with a model. It begins with the prompt of the task's
//! skill, and with the task.
use crate::ids;
use crate::ids::{new_id, parse_id};
use crate::json;
use crate::json::value_to_string;
use crate::model;
use crate::model::{copy_text, MessageRole};
use crate::paths;
use crate::paths::join;
use crate::table;
use crate::table::Table;
use vstd::prelude::*;

verus! {

/// The prompt of a chat without a skill.
pub const DEFAULT_PROMPT: &'static str = "You are the favetto's agent. Help the user work on their task.\n";

/// One message of a conversation.
#[derive(Debug, PartialEq, Eq)]
pub struct ChatMessage {
    pub role: MessageRole,
    pub text: String,
}

/// [`ChatMessage`] over mathematical text.
pub struct MessageView {
    pub role: MessageRole,
    pub text: Seq<char>,
}

impl View for ChatMessage {
    type V = MessageView;

    open spec fn view(&self) -> MessageView {
        MessageView { role: self.role, text: self.text@ }
    }
}

impl ChatMessage {
    pub fn new(role: MessageRole, text: String) -> (message: ChatMessage)
        ensures
            message@ == (MessageView { role, text: text@ }),
    {
        ChatMessage { role, text }
    }
}

pub open spec fn message_views(messages: Seq<ChatMessage>) -> Seq<MessageView> {
    messages.map_values(|m: ChatMessage| m@)
}

fn push_message(messages: &mut Vec<ChatMessage>, message: ChatMessage)
    ensures
        message_views(final(messages)@) == message_views(old(messages)@).push(message@),
{
    let ghost before = messages@;
    messages.push(message);
    assert(message_views(messages@) == message_views(before).push(message@));
}

fn copy_messages(messages: &Vec<ChatMessage>) -> (copy: Vec<ChatMessage>)
    ensures
        message_views(copy@) == message_views(messages@),
{
    let mut copy: Vec<ChatMessage> = Vec::new();
    let mut i: usize = 0;
    while i < messages.len()
        invariant
            i <= messages@.len(),
            message_views(copy@) == message_views(messages@).take(i as int),
        decreases messages@.len() - i,
    {
        push_message(
            &mut copy,
            ChatMessage { role: messages[i].role, text: messages[i].text.clone() },
        );
        assert(message_views(copy@) == message_views(messages@).take(i + 1));
        i += 1;
    }
    assert(message_views(messages@).take(i as int) == message_views(messages@));
    copy
}

/// A conversation.
#[derive(Debug, PartialEq, Eq)]
pub struct ChatSession {
    pub id: String,
    pub task_id: Option<String>,
    pub messages: Vec<ChatMessage>,
}

/// [`ChatSession`] over mathematical text.
pub struct SessionView {
    pub id: Seq<char>,
    pub task_id: Option<Seq<char>>,
    pub messages: Seq<MessageView>,
}

impl View for ChatSession {
    type V = SessionView;

    open spec fn view(&self) -> SessionView {
        SessionView {
            id: self.id@,
            task_id: model::opt_text(self.task_id),
            messages: message_views(self.messages@),
        }
    }
}

impl Clone for ChatSession {
    fn clone(&self) -> (copy: ChatSession)
        ensures
            copy@ == self@,
    {
        ChatSession {
            id: self.id.clone(),
            task_id: copy_text(&self.task_id),
            messages: copy_messages(&self.messages),
        }
    }
}

/// A task that a chat is about.
#[derive(Debug, PartialEq, Eq)]
pub struct ChatTask {
    pub id: String,
    pub skill: String,
    /// The prompt of its skill, where it could be read.
    pub skill_prompt: Option<String>,
}

/// The file with the prompt of a skill.
pub fn skill_prompt_path(skills_dir: &str, skill: &str) -> (path: String)
    ensures
        path@ == paths::joined(paths::joined(skills_dir@, skill@), "AGENT.md"@),
{
    join(join(skills_dir, skill).as_str(), "AGENT.md")
}

/// The task that a conversation is to look up: that of its id, where this names one.
pub open spec fn task_sought(task_id: Option<Seq<char>>) -> Option<u128> {
    match task_id {
        Some(id) => ids::parsed_id(id),
        None => None,
    }
}

/// The task that a conversation is to look up: that of its id, where this names one.
pub fn sought_task(task_id: &Option<String>) -> (sought: Option<u128>)
    ensures
        sought == task_sought(model::opt_text(*task_id)),
{
    match task_id {
        Some(id) => parse_id(id.as_str()),
        None => None,
    }
}

/// What a conversation begins with.
pub open spec fn seed(task: Option<ChatTask>) -> Seq<MessageView> {
    let (system, user) = match task {
        Some(task) => (
            match task.skill_prompt {
                Some(prompt) => prompt@,
                None => DEFAULT_PROMPT@,
            },
            "Task: "@ + task.skill@ + " ("@ + task.id@ + ")"@,
        ),
        None => (DEFAULT_PROMPT@, "Hello!"@),
    };
    seq![
        MessageView { role: MessageRole::System, text: system },
        MessageView { role: MessageRole::User, text: user },
    ]
}

/// What a model answers.
#[derive(Debug)]
pub enum ModelResponse {
    Final { text: String },
    ToolCall { server: String, tool: String, arguments: serde_json::Value },
}

/// What is shown of an answer: a call of a tool is only noted.
pub open spec fn shown(response: ModelResponse) -> Seq<char> {
    match response {
        ModelResponse::Final { text } => text@,
        ModelResponse::ToolCall { server, tool, arguments } => "[tool call "@ + server@ + "."@
            + tool@ + "("@ + json::written(json::value_of(arguments))
            + ") \u{2014} not available in chat yet]"@,
    }
}

/// The conversations that are open.
#[derive(Debug)]
pub struct ChatManager {
    pub sessions: Table<ChatSession>,
}

/// What a conversation that is not open is refused with.
pub fn unknown_chat(session_id: &str) -> (message: String)
    ensures
        message@ == "no chat session '"@ + session_id@ + "'"@,
{
    "no chat session '".to_owned().concat(session_id).concat("'")
}

impl ChatManager {
    pub fn new() -> (manager: ChatManager)
        ensures
            manager.sessions@ == Map::<Seq<char>, SessionView>::empty(),
    {
        ChatManager { sessions: Table::new() }
    }

    /// Opens a conversation under this id.
    pub fn open_as(&mut self, id: String, task_id: Option<String>, task: Option<ChatTask>) -> (session:
        ChatSession)
        ensures
            session@ == (SessionView {
                id: id@,
                task_id: model::opt_text(task_id),
                messages: seed(task),
            }),
            final(self).sessions@ == old(self).sessions@.insert(id@, session@),
    {
        let ghost goal = seed(task);
        let (system, user) = match task {
            Some(task) => (
                match task.skill_prompt {
                    Some(prompt) => prompt,
                    None => DEFAULT_PROMPT.to_owned(),
                },
                "Task: ".to_owned().concat(task.skill.as_str()).concat(" (").concat(
                    task.id.as_str(),
                ).concat(")"),
            ),
            None => (DEFAULT_PROMPT.to_owned(), "Hello!".to_owned()),
        };
        let mut messages: Vec<ChatMessage> = Vec::new();
        assert(message_views(messages@) == Seq::<MessageView>::empty());
        push_message(&mut messages, ChatMessage::new(MessageRole::System, system));
        push_message(&mut messages, ChatMessage::new(MessageRole::User, user));
        assert(message_views(messages@) == goal);
        let session = ChatSession { id: id.clone(), task_id, messages };
        let copy = session.clone();
        self.sessions.insert(id, session);
        copy
    }

    /// Opens a conversation under a new random id. A task counts only where the task's
    /// id names one.
    pub fn open(&mut self, task_id: Option<String>, task: Option<ChatTask>) -> (session: ChatSession)
        ensures
            ids::id_form(session@.id),
            session@.task_id == model::opt_text(task_id),
            session@.messages == seed(
                if task_sought(model::opt_text(task_id)) is Some {
                    task
                } else {
                    None
                },
            ),
            final(self).sessions@ == old(self).sessions@.insert(session@.id, session@),
    {
        let task = match sought_task(&task_id) {
            Some(_) => task,
            None => None,
        };
        self.open_as(new_id(), task_id, task)
    }

    /// Adds what the user says, and says whether the conversation is open.
    pub fn say(&mut self, session_id: &str, text: &str) -> (known: bool)
        ensures
            known == old(self).sessions@.contains_key(session_id@),
            final(self).sessions@ == match table::lookup(old(self).sessions@, session_id@) {
                Some(session) => old(self).sessions@.insert(
                    session_id@,
                    SessionView {
                        messages: session.messages.push(
                            MessageView { role: MessageRole::User, text: text@ },
                        ),
                        ..session
                    },
                ),
                None => old(self).sessions@,
            },
    {
        self.add(session_id, ChatMessage::new(MessageRole::User, text.to_owned()))
    }

    /// Adds what the model answers, and says whether the conversation is open.
    pub fn answer(&mut self, session_id: &str, response: ModelResponse) -> (known: bool)
        ensures
            known == old(self).sessions@.contains_key(session_id@),
            final(self).sessions@ == match table::lookup(old(self).sessions@, session_id@) {
                Some(session) => old(self).sessions@.insert(
                    session_id@,
                    SessionView {
                        messages: session.messages.push(
                            MessageView { role: MessageRole::Assistant, text: shown(response) },
                        ),
                        ..session
                    },
                ),
                None => old(self).sessions@,
            },
    {
        let text = match response {
            ModelResponse::Final { text } => text,
            ModelResponse::ToolCall { server, tool, arguments } => "[tool call ".to_owned().concat(
                server.as_str(),
            ).concat(".").concat(tool.as_str()).concat("(").concat(
                value_to_string(&arguments).as_str(),
            ).concat(") \u{2014} not available in chat yet]"),
        };
        self.add(session_id, ChatMessage::new(MessageRole::Assistant, text))
    }

    fn add(&mut self, session_id: &str, message: ChatMessage) -> (known: bool)
        ensures
            known == old(self).sessions@.contains_key(session_id@),
            final(self).sessions@ == match table::lookup(old(self).sessions@, session_id@) {
                Some(session) => old(self).sessions@.insert(
                    session_id@,
                    SessionView { messages: session.messages.push(message@), ..session },
                ),
                None => old(self).sessions@,
            },
    {
        let ghost before = self.sessions@;
        match self.sessions.remove(session_id) {
            Some(session) => {
                let mut session = session;
                push_message(&mut session.messages, message);
                let ghost changed = session@;
                self.sessions.insert(session_id.to_owned(), session);
                assert(self.sessions@ =~= before.insert(session_id@, changed));
                true
            },
            None => {
                assert(self.sessions@ =~= before);
                false
            },
        }
    }

    /// A conversation; an empty one where it is not open.
    pub fn messages(&self, session_id: &str) -> (session: ChatSession)
        ensures
            session@ == match table::lookup(self.sessions@, session_id@) {
                Some(session) => session,
                None => SessionView { id: session_id@, task_id: None, messages: Seq::empty() },
            },
    {
        match self.sessions.get(session_id) {
            Some(session) => session.clone(),
            None => {
                let session = ChatSession {
                    id: session_id.to_owned(),
                    task_id: None,
                    messages: Vec::new(),
                };
                assert(session@.messages == Seq::<MessageView>::empty());
                session
            },
        }
    }
}

} // verus!
