//! Live state of pi at a terminal, from the session file that it appends to.
//!
//! A session at a terminal has no channel of its own. Its file is followed instead:
//! bounded, and read only. Where no file is found nothing is told, and the screen
//! remains the fallback.
use crate::agents::pi::json as records;
use crate::agents::pi::json::parse_usage;
use crate::agents::pi::session_file;
use crate::agents::pi::session_file::{
    find_session_file_in, newest_session_file_in, SessionFile, MAX_LINES, MAX_LINE_BYTES,
};
use crate::json;
use crate::json::{copied, copied_or_null, is_true, parse_bytes, read_str, Json, JsonView};
use crate::lines;
use crate::model;
use crate::model::{record, AgentStateEvent, EventView, MessageRole, Moment};
use crate::text::{str_eq, trim};
use vstd::prelude::*;

verus! {

/// How often a session file is looked at, in milliseconds.
pub const POLL_INTERVAL: u64 = 250;

/// A file that was written this many seconds before the launch may still be that of
/// the launch: the clock of a file system can be coarse.
pub const BASELINE_GRACE_SECONDS: i64 = 2;

/// A usage object tells its usage.
pub open spec fn usage_told(usage: Option<JsonView>) -> Seq<EventView> {
    match usage {
        Some(usage) if usage is Object => seq![
            EventView::Usage { usage: records::usage_in(usage) },
        ],
        _ => Seq::empty(),
    }
}

/// What one block of an assistant's message tells.
pub open spec fn block_told(block: JsonView) -> Seq<EventView> {
    let kind = json::str_of(block.get("type"@));
    if kind == Some("text"@) {
        let text = block.text("text"@);
        if text.len() > 0 {
            seq![EventView::TextDelta { role: MessageRole::Assistant, text }]
        } else {
            Seq::empty()
        }
    } else if kind == Some("thinking"@) {
        let text = block.text("thinking"@);
        if text.len() > 0 {
            seq![EventView::ReasoningDelta { text }]
        } else {
            Seq::empty()
        }
    } else if kind == Some("toolCall"@) {
        seq![
            EventView::ToolStarted {
                id: block.text("id"@),
                name: block.text("name"@),
                input: json::or_null(block.get("arguments"@)),
            },
        ]
    } else {
        Seq::empty()
    }
}

/// What the first blocks of an assistant's message tell.
pub open spec fn blocks_told(blocks: Seq<JsonView>) -> Seq<EventView>
    decreases blocks.len(),
{
    if blocks.len() == 0 {
        Seq::empty()
    } else {
        blocks_told(blocks.drop_last()) + block_told(blocks.last())
    }
}

/// What a persisted message tells.
pub open spec fn message_told(message: Option<JsonView>) -> Seq<EventView> {
    match message {
        Some(message) => {
            let role = message.text("role"@);
            if role == "assistant"@ {
                (match json::items_of(message.get("content"@)) {
                    Some(blocks) => blocks_told(blocks),
                    None => Seq::empty(),
                }) + usage_told(message.get("usage"@))
            } else if role == "toolResult"@ {
                seq![
                    EventView::ToolFinished {
                        id: message.text("toolCallId"@),
                        name: message.text("toolName"@),
                        ok: json::bool_of(message.get("isError"@)) != Some(true),
                        output: message.get("content"@),
                    },
                ] + usage_told(message.get("usage"@))
            } else if role == "user"@ {
                seq![EventView::TurnStarted]
            } else {
                Seq::empty()
            }
        },
        None => Seq::empty(),
    }
}

/// What one entry of a session file tells.
pub open spec fn entry_told(value: JsonView) -> Seq<EventView> {
    let kind = value.text("type"@);
    if !(value is Object) {
        Seq::empty()
    } else if kind == "session"@ {
        match json::str_of(value.get("id"@)) {
            Some(id) => seq![EventView::Session { session_id: Some(id), title: None, model: None }],
            None => Seq::empty(),
        }
    } else if kind == "session_info"@ {
        let title = crate::text::trimmed(value.text("name"@));
        if title.len() > 0 {
            seq![EventView::Title { title }]
        } else {
            Seq::empty()
        }
    } else if kind == "model_change"@ {
        match json::str_of(value.get("modelId"@)) {
            Some(name) => seq![
                EventView::Session { session_id: None, title: None, model: Some(name) },
            ],
            None => Seq::empty(),
        }
    } else if kind == "message"@ {
        message_told(value.get("message"@))
    } else if kind == "usage"@ || kind == "compaction"@ || kind == "branch_summary"@ {
        usage_told(value.get("usage"@))
    } else {
        Seq::empty()
    }
}

/// What one line of a session file tells; nothing where it is no JSON.
pub open spec fn line_told(line: Seq<u8>) -> Seq<EventView> {
    match json::parsed_bytes(line) {
        Ok(value) => entry_told(value),
        Err(_) => Seq::empty(),
    }
}

fn push_usage(usage: Option<&Json>, events: &mut Vec<AgentStateEvent>)
    ensures
        model::event_views(final(events)@) == model::event_views(old(events)@) + usage_told(
            json::opt_json_ref(usage),
        ),
{
    if let Some(usage) = usage {
        if usage.is_object() {
            record(events, AgentStateEvent::Usage { usage: parse_usage(usage) });
        }
    }
}

fn map_block(block: &Json, events: &mut Vec<AgentStateEvent>)
    ensures
        model::event_views(final(events)@) == model::event_views(old(events)@) + block_told(
            block@,
        ),
{
    let kind = match read_str(block.get("type")) {
        Some(kind) => kind,
        None => {
            return;
        },
    };
    if str_eq(kind, "text") {
        let text = block.text("text");
        if !text.is_empty() {
            record(
                events,
                AgentStateEvent::TextDelta { role: MessageRole::Assistant, text: text.to_owned() },
            );
        }
    } else if str_eq(kind, "thinking") {
        let text = block.text("thinking");
        if !text.is_empty() {
            record(events, AgentStateEvent::ReasoningDelta { text: text.to_owned() });
        }
    } else if str_eq(kind, "toolCall") {
        record(
            events,
            AgentStateEvent::ToolStarted {
                id: block.text("id").to_owned(),
                name: block.text("name").to_owned(),
                input: copied_or_null(block.get("arguments")),
            },
        );
    }
}

fn map_blocks(blocks: &Vec<Json>, events: &mut Vec<AgentStateEvent>)
    ensures
        model::event_views(final(events)@) == model::event_views(old(events)@) + blocks_told(
            json::json_views(blocks@),
        ),
{
    let ghost all = json::json_views(blocks@);
    let ghost before = model::event_views(events@);
    let mut i: usize = 0;
    assert(all.take(0).len() == 0);
    assert(before + Seq::<EventView>::empty() == before);
    while i < blocks.len()
        invariant
            i <= blocks@.len(),
            all == json::json_views(blocks@),
            model::event_views(events@) == before + blocks_told(all.take(i as int)),
        decreases blocks@.len() - i,
    {
        assert(all.take(i + 1).drop_last() == all.take(i as int));
        assert(all.take(i + 1).last() == blocks@[i as int]@);
        map_block(&blocks[i], events);
        assert(model::event_views(events@) == before + blocks_told(all.take(i + 1)));
        i += 1;
    }
    assert(all.take(i as int) == all);
}

/// Maps one persisted message into events.
pub fn map_message(value: &Json, events: &mut Vec<AgentStateEvent>)
    ensures
        model::event_views(final(events)@) == model::event_views(old(events)@) + message_told(
            value@.get("message"@),
        ),
{
    let ghost before = model::event_views(events@);
    let message = match value.get("message") {
        Some(message) => message,
        None => {
            return;
        },
    };
    let role = message.text("role");
    if str_eq(role, "assistant") {
        let content = match message.get("content") {
            Some(content) => content.as_array(),
            None => None,
        };
        if let Some(blocks) = content {
            map_blocks(blocks, events);
        }
        push_usage(message.get("usage"), events);
        assert(model::event_views(events@) == before + message_told(Some(message@)));
    } else if str_eq(role, "toolResult") {
        record(
            events,
            AgentStateEvent::ToolFinished {
                id: message.text("toolCallId").to_owned(),
                name: message.text("toolName").to_owned(),
                ok: !is_true(message.get("isError")),
                output: copied(message.get("content")),
            },
        );
        push_usage(message.get("usage"), events);
        assert(model::event_views(events@) == before + message_told(Some(message@)));
    } else if str_eq(role, "user") {
        record(events, AgentStateEvent::TurnStarted);
    }
}

/// Maps one entry of a session file into events.
pub fn map_entry(value: &Json, events: &mut Vec<AgentStateEvent>)
    ensures
        model::event_views(final(events)@) == model::event_views(old(events)@) + entry_told(
            value@,
        ),
{
    if !value.is_object() {
        return;
    }
    let kind = value.text("type");
    if str_eq(kind, "session") {
        if let Some(id) = read_str(value.get("id")) {
            record(
                events,
                AgentStateEvent::Session {
                    session_id: Some(id.to_owned()),
                    title: None,
                    model: None,
                },
            );
        }
    } else if str_eq(kind, "session_info") {
        let title = trim(value.text("name"));
        if !title.is_empty() {
            record(events, AgentStateEvent::Title { title: title.to_owned() });
        }
    } else if str_eq(kind, "model_change") {
        if let Some(name) = read_str(value.get("modelId")) {
            record(
                events,
                AgentStateEvent::Session {
                    session_id: None,
                    title: None,
                    model: Some(name.to_owned()),
                },
            );
        }
    } else if str_eq(kind, "message") {
        map_message(value, events);
    } else if str_eq(kind, "usage") || str_eq(kind, "compaction") || str_eq(
        kind,
        "branch_summary",
    ) {
        push_usage(value.get("usage"), events);
    }
}

/// Maps one line of a session file into events.
pub fn map_line(line: &[u8], events: &mut Vec<AgentStateEvent>)
    ensures
        model::event_views(final(events)@) == model::event_views(old(events)@) + line_told(line@),
{
    match parse_bytes(line) {
        Ok(value) => {
            map_entry(&value, events);
        },
        Err(_) => {},
    }
}

/// `pending` without the full windows of a line that is too long and has no end yet.
pub open spec fn windowed(pending: Seq<u8>) -> Seq<u8>
    decreases pending.len(),
{
    if pending.len() > MAX_LINE_BYTES && !lines::has_line(pending) {
        windowed(pending.skip(MAX_LINE_BYTES as int))
    } else {
        pending
    }
}

/// What the first `budget` complete lines of `pending` tell. A line that is too long
/// tells nothing.
pub open spec fn lines_told(pending: Seq<u8>, budget: nat) -> Seq<EventView>
    decreases budget,
{
    if budget == 0 || !lines::has_line(pending) {
        Seq::empty()
    } else {
        let line = pending.take(lines::feed_at(pending));
        (if line.len() <= MAX_LINE_BYTES {
            line_told(line)
        } else {
            Seq::empty()
        }) + lines_told(lines::after_line(pending), (budget - 1) as nat)
    }
}

/// What is left of `pending` behind its first `budget` complete lines.
pub open spec fn lines_left(pending: Seq<u8>, budget: nat) -> Seq<u8>
    decreases budget,
{
    if budget == 0 || !lines::has_line(pending) {
        pending
    } else {
        lines_left(lines::after_line(pending), (budget - 1) as nat)
    }
}

/// A cursor over one session file.
#[derive(Debug, PartialEq, Eq)]
pub struct SessionTail {
    pub path: String,
    /// How much of the file was read.
    pub offset: u64,
    /// What was read but not mapped yet.
    pub pending: Vec<u8>,
}

impl SessionTail {
    /// A cursor over a file of this length: at its end where its history is to be
    /// skipped, else at its start.
    pub fn open(path: String, len: u64, skip_history: bool) -> (tail: SessionTail)
        ensures
            tail.path == path,
            tail.offset == if skip_history {
                len
            } else {
                0
            },
            tail.pending@ == Seq::<u8>::empty(),
    {
        SessionTail {
            path,
            offset: if skip_history {
                len
            } else {
                0
            },
            pending: Vec::new(),
        }
    }

    fn drop_windows(&mut self)
        ensures
            final(self).pending@ == windowed(old(self).pending@),
            final(self).path == old(self).path,
            final(self).offset == old(self).offset,
    {
        let ghost goal = windowed(self.pending@);
        while self.pending.len() > MAX_LINE_BYTES && !lines::holds_line(&self.pending)
            invariant
                windowed(self.pending@) == goal,
                self.path == old(self).path,
                self.offset == old(self).offset,
            decreases self.pending@.len(),
        {
            let ghost before = self.pending@;
            let rest = self.pending.split_off(MAX_LINE_BYTES);
            assert(rest@ == before.skip(MAX_LINE_BYTES as int));
            self.pending = rest;
        }
    }

    /// Takes what was read behind the cursor, at most [`MAX_BYTES`], and maps at most
    /// [`MAX_LINES`] complete lines. Lines that are left over from an earlier burst
    /// are mapped even where nothing new was read.
    pub fn poll(&mut self, chunk: &[u8]) -> (events: Vec<AgentStateEvent>)
        requires
            old(self).offset + chunk@.len() <= u64::MAX,
        ensures
            final(self).path == old(self).path,
            final(self).offset == old(self).offset + chunk@.len(),
            final(self).pending@ == lines_left(
                windowed(old(self).pending@ + chunk@),
                MAX_LINES as nat,
            ),
            model::event_views(events@) == lines_told(
                windowed(old(self).pending@ + chunk@),
                MAX_LINES as nat,
            ),
    {
        self.offset = self.offset + chunk.len() as u64;
        let ghost before = self.pending@;
        lines::append_bytes(&mut self.pending, chunk);
        self.drop_windows();
        let ghost all = self.pending@;
        let mut events: Vec<AgentStateEvent> = Vec::new();
        assert(model::event_views(events@) == Seq::<EventView>::empty());
        let mut left: usize = MAX_LINES;
        assert(model::event_views(events@) + lines_told(all, left as nat) == lines_told(
            all,
            left as nat,
        ));
        while left > 0
            invariant_except_break
                left <= MAX_LINES,
                self.path == old(self).path,
                self.offset == old(self).offset + chunk@.len(),
                lines_left(self.pending@, left as nat) == lines_left(all, MAX_LINES as nat),
                model::event_views(events@) + lines_told(self.pending@, left as nat) == lines_told(
                    all,
                    MAX_LINES as nat,
                ),
            ensures
                self.path == old(self).path,
                self.offset == old(self).offset + chunk@.len(),
                self.pending@ == lines_left(all, MAX_LINES as nat),
                model::event_views(events@) == lines_told(all, MAX_LINES as nat),
            decreases left,
        {
            let ghost told = model::event_views(events@);
            let ghost waiting = self.pending@;
            match lines::split_line(&mut self.pending) {
                Some(line) => {
                    if line.len() <= MAX_LINE_BYTES {
                        map_line(line.as_slice(), &mut events);
                    }
                    let ghost this = if line@.len() <= MAX_LINE_BYTES {
                        line_told(line@)
                    } else {
                        Seq::empty()
                    };
                    assert(model::event_views(events@) == told + this);
                    assert((told + this) + lines_told(self.pending@, (left - 1) as nat) == told + (
                    this + lines_told(self.pending@, (left - 1) as nat)));
                    left -= 1;
                },
                None => {
                    assert(told + Seq::<EventView>::empty() == told);
                    break ;
                },
            }
        }
        events
    }
}

/// A line without an end never grows beyond one window.
pub proof fn law_waiting_is_bounded(pending: Seq<u8>)
    ensures
        windowed(pending).len() <= MAX_LINE_BYTES || lines::has_line(windowed(pending)),
    decreases pending.len(),
{
    if pending.len() > MAX_LINE_BYTES && !lines::has_line(pending) {
        law_waiting_is_bounded(pending.skip(MAX_LINE_BYTES as int));
    }
}

/// A burst tells what it would have told in two polls, where the first got all the
/// lines that it could map.
pub proof fn law_leftover_lines_are_mapped_next(pending: Seq<u8>, first: nat, second: nat)
    ensures
        lines_told(pending, first) + lines_told(lines_left(pending, first), second) == lines_told(
            pending,
            first + second,
        ),
        lines_left(lines_left(pending, first), second) == lines_left(pending, first + second),
    decreases first,
{
    if first > 0 && lines::has_line(pending) {
        law_leftover_lines_are_mapped_next(
            lines::after_line(pending),
            (first - 1) as nat,
            second,
        );
        let line = pending.take(lines::feed_at(pending));
        let this = if line.len() <= MAX_LINE_BYTES {
            line_told(line)
        } else {
            Seq::empty()
        };
        let rest = lines::after_line(pending);
        assert((this + lines_told(rest, (first - 1) as nat)) + lines_told(
            lines_left(pending, first),
            second,
        ) == this + (lines_told(rest, (first - 1) as nat) + lines_told(
            lines_left(rest, (first - 1) as nat),
            second,
        )));
    } else if first > 0 {
        assert(lines_told(pending, second) == Seq::<EventView>::empty());
        assert(Seq::<EventView>::empty() + Seq::<EventView>::empty() == Seq::<EventView>::empty());
    } else {
        assert(Seq::<EventView>::empty() + lines_told(pending, second) == lines_told(
            pending,
            second,
        ));
    }
}

/// The observer of a session at a terminal.
#[derive(Debug, PartialEq, Eq)]
pub struct PiSessionFileSource {
    /// The root of the session files, where it is not pi's own.
    pub root: Option<String>,
}

/// Why a session file cannot be followed.
#[derive(Debug, Clone, Copy, PartialEq, Eq, Structural)]
pub enum TailError {
    NoWorkingDirectory,
    NoSessionRoot,
}

impl TailError {
    /// The error in words.
    pub fn message(&self) -> (message: &'static str)
        ensures
            message@ == match *self {
                TailError::NoWorkingDirectory => "pi session tail needs a working directory"@,
                TailError::NoSessionRoot => "pi session root is unavailable"@,
            },
    {
        match self {
            TailError::NoWorkingDirectory => "pi session tail needs a working directory",
            TailError::NoSessionRoot => "pi session root is unavailable",
        }
    }
}

impl PiSessionFileSource {
    pub fn new() -> (source: PiSessionFileSource)
        ensures
            source.root is None,
    {
        PiSessionFileSource { root: None }
    }

    /// An observer of another root.
    pub fn with_root(root: String) -> (source: PiSessionFileSource)
        ensures
            source.root == Some(root),
    {
        PiSessionFileSource { root: Some(root) }
    }

    /// A stable label for diagnostics.
    pub fn label(&self) -> (label: &'static str)
        ensures
            label@ == "pi-session-file"@,
    {
        "pi-session-file"
    }

    /// The working directory and the root that are to be followed, where
    /// `default_root` is pi's own.
    pub fn start(&self, cwd: &Option<String>, default_root: &Option<String>) -> (target: Result<
        (String, String),
        TailError,
    >)
        ensures
            match target {
                Ok((dir, root)) => model::opt_text(*cwd) == Some(dir@) && json::first_of(
                    model::opt_text(self.root),
                    model::opt_text(*default_root),
                ) == Some(root@),
                Err(TailError::NoWorkingDirectory) => cwd is None,
                Err(TailError::NoSessionRoot) => cwd is Some && self.root is None
                    && default_root is None,
            },
    {
        let dir = match cwd {
            Some(dir) => dir.clone(),
            None => {
                return Err(TailError::NoWorkingDirectory);
            },
        };
        match &self.root {
            Some(root) => Ok((dir, root.clone())),
            None => match default_root {
                Some(root) => Ok((dir, root.clone())),
                None => Err(TailError::NoSessionRoot),
            },
        }
    }
}

/// The moment from which files count as those of a launch at `baseline`.
pub open spec fn cutoff(baseline: Moment) -> Moment {
    if baseline.seconds >= i64::MIN + BASELINE_GRACE_SECONDS {
        Moment {
            seconds: (baseline.seconds - BASELINE_GRACE_SECONDS) as i64,
            nanos: baseline.nanos,
        }
    } else {
        baseline
    }
}

/// The file to follow, of those listed: that of a known session, or else the newest
/// that was written since the launch. Of a known session only what is new is told,
/// so its history is to be skipped.
pub fn locate(known: &Option<String>, listed: &Vec<SessionFile>, baseline: Moment) -> (target:
    Option<(String, bool)>)
    ensures
        match target {
            Some((path, skip_history)) => {
                &&& skip_history == (known is Some)
                &&& known is Some ==> exists|i: int|
                    #[trigger] session_file::newest_named(listed@, known->0@, i) && path@
                        == listed@[i].path@
                &&& known is None ==> exists|i: int|
                    #[trigger] session_file::newest_written(listed@, Some(cutoff(baseline)), i)
                        && path@ == listed@[i].path@
            },
            None => {
                &&& known is Some ==> forall|i: int|
                    0 <= i < listed@.len() ==> !session_file::has_suffix(
                        #[trigger] listed@[i].name@,
                        session_file::file_suffix(known->0@),
                    )
                &&& known is None ==> forall|i: int|
                    0 <= i < listed@.len() ==> !session_file::is_candidate(
                        #[trigger] listed@[i],
                        Some(cutoff(baseline)),
                    )
            },
        },
{
    match known {
        Some(id) => match find_session_file_in(listed, id.as_str()) {
            Some(path) => Some((path, true)),
            None => None,
        },
        None => {
            let after = if baseline.seconds >= i64::MIN + BASELINE_GRACE_SECONDS {
                Moment {
                    seconds: baseline.seconds - BASELINE_GRACE_SECONDS,
                    nanos: baseline.nanos,
                }
            } else {
                baseline
            };
            assert(after == cutoff(baseline));
            match newest_session_file_in(listed, Some(after)) {
                Some(path) => Some((path, false)),
                None => None,
            }
        },
    }
}

/// What a reply to such a session is refused with: its dialogs never reach the file.
pub fn unsupported_reply() -> (message: &'static str)
    ensures
        message@ == "pi session-file transport cannot answer dialogs"@,
{
    "pi session-file transport cannot answer dialogs"
}

} // verus!
