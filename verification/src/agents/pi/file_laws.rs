//! What the entries of a session file tell, and which file and which name are a session's.
use crate::agents::pi::file_tail;
use crate::agents::pi::row_laws;
use crate::agents::pi::rpc;
use crate::agents::pi::session_file;
use crate::agents::pi::session_file::{HeaderView, SessionFile};
use crate::agents::state::InputReply;
use crate::agents::terms;
use crate::json as tree;
use crate::json::JsonView;
use crate::lines;
use crate::model::{EventView, MessageRole, Moment};
use crate::paths;
use crate::text;
use vstd::prelude::*;

verus! {

/// Whether an entry is of this type.
pub open spec fn entry(value: JsonView, kind: Seq<char>) -> bool {
    value is Object && terms::words(value.get("type"@)) == kind
}

/// Whether an entry is a message of this role.
pub open spec fn message(value: JsonView, role: Seq<char>) -> bool {
    entry(value, "message"@) && terms::words(terms::inside(value, "message"@, "role"@)) == role
}

/// A usage object as it is told.
pub open spec fn accounted(usage: Option<JsonView>) -> Seq<EventView> {
    match usage {
        Some(usage) if usage is Object => seq![EventView::Usage { usage: row_laws::spent(usage) }],
        _ => Seq::empty(),
    }
}

/// What one block of an answer tells: a piece of text or of reasoning, unless it is empty,
/// or the start of a tool call.
pub open spec fn block(b: JsonView) -> Seq<EventView> {
    let kind = terms::words(b.get("type"@));
    let piece = terms::words(b.get("text"@));
    let thought = terms::words(b.get("thinking"@));
    if kind == "text"@ && piece.len() > 0 {
        seq![EventView::TextDelta { role: MessageRole::Assistant, text: piece }]
    } else if kind == "thinking"@ && thought.len() > 0 {
        seq![EventView::ReasoningDelta { text: thought }]
    } else if kind == "toolCall"@ {
        seq![
            EventView::ToolStarted {
                id: terms::words(b.get("id"@)),
                name: terms::words(b.get("name"@)),
                input: match b.get("arguments"@) {
                    Some(input) => input,
                    None => JsonView::Null,
                },
            },
        ]
    } else {
        Seq::empty()
    }
}

proof fn lemma_usage(usage: Option<JsonView>)
    ensures
        file_tail::usage_told(usage) =~= accounted(usage),
{
    if let Some(value) = usage {
        row_laws::law_usage_is_read(value);
    }
}

proof fn lemma_block(b: JsonView)
    ensures
        file_tail::block_told(b) =~= block(b),
{
    reveal_strlit("text");
    reveal_strlit("thinking");
    reveal_strlit("toolCall");
    assert("thinking"@[1] != "toolCall"@[1]);
    let kind = b.get("type"@);
    if let Some(JsonView::Str(said)) = kind {
        assert(tree::str_of(kind) == Some(said));
    } else {
        assert(tree::str_of(kind) is None);
        assert(terms::words(kind).len() == 0);
    }
    assert(b.text("text"@) == terms::words(b.get("text"@)));
    assert(b.text("thinking"@) == terms::words(b.get("thinking"@)));
}

proof fn lemma_blocks(blocks: Seq<JsonView>)
    ensures
        file_tail::blocks_told(blocks) =~= blocks.map_values(|b: JsonView| block(b)).flatten(),
    decreases blocks.len(),
{
    let all = blocks.map_values(|b: JsonView| block(b));
    all.lemma_flatten_and_flatten_alt_are_equivalent();
    if blocks.len() > 0 {
        let front = blocks.drop_last();
        let some = front.map_values(|b: JsonView| block(b));
        lemma_blocks(front);
        lemma_block(blocks.last());
        some.lemma_flatten_and_flatten_alt_are_equivalent();
        assert(all.drop_last() =~= some);
        assert(all.last() == block(blocks.last()));
    }
}

/// The header tells its session.
pub proof fn law_header_tells_its_session(value: JsonView)
    requires
        entry(value, "session"@),
    ensures
        file_tail::entry_told(value) =~= match value.get("id"@) {
            Some(JsonView::Str(id)) => seq![
                EventView::Session { session_id: Some(id), title: None, model: None },
            ],
            _ => Seq::empty(),
        },
{
    reveal_strlit("session");
    reveal_strlit("session_info");
    reveal_strlit("model_change");
    reveal_strlit("message");
    reveal_strlit("usage");
    reveal_strlit("compaction");
    reveal_strlit("branch_summary");
    assert("session"@[0] != "message"@[0]);
    assert(value.text("type"@) == terms::words(value.get("type"@)));
}

/// A name that is not blank is told as the title.
pub proof fn law_session_name_is_told(value: JsonView)
    requires
        entry(value, "session_info"@),
    ensures
        ({
            let title = text::trimmed(terms::words(value.get("name"@)));
            file_tail::entry_told(value) =~= if title.len() > 0 {
                seq![EventView::Title { title }]
            } else {
                Seq::empty()
            }
        }),
{
    reveal_strlit("session");
    reveal_strlit("session_info");
    reveal_strlit("model_change");
    reveal_strlit("message");
    reveal_strlit("usage");
    reveal_strlit("compaction");
    reveal_strlit("branch_summary");
    assert("session_info"@[0] != "model_change"@[0]);
    assert(value.text("type"@) == terms::words(value.get("type"@)));
    assert(value.text("name"@) == terms::words(value.get("name"@)));
}

/// A change of the model is told.
pub proof fn law_model_is_told(value: JsonView)
    requires
        entry(value, "model_change"@),
    ensures
        file_tail::entry_told(value) =~= match value.get("modelId"@) {
            Some(JsonView::Str(name)) => seq![
                EventView::Session { session_id: None, title: None, model: Some(name) },
            ],
            _ => Seq::empty(),
        },
{
    reveal_strlit("session");
    reveal_strlit("session_info");
    reveal_strlit("model_change");
    reveal_strlit("message");
    reveal_strlit("usage");
    reveal_strlit("compaction");
    reveal_strlit("branch_summary");
    assert("model_change"@[0] != "session_info"@[0]);
    assert(value.text("type"@) == terms::words(value.get("type"@)));
}

/// An answer tells its blocks one after the other, and then its usage.
pub proof fn law_answer_tells_its_blocks(value: JsonView)
    requires
        message(value, "assistant"@),
    ensures
        file_tail::entry_told(value) =~= (match terms::inside(value, "message"@, "content"@) {
            Some(JsonView::Array(blocks)) => blocks.map_values(|b: JsonView| block(b)).flatten(),
            _ => Seq::empty(),
        }) + accounted(terms::inside(value, "message"@, "usage"@)),
{
    let kind = value.text("type"@);
    assert(kind == terms::words(value.get("type"@)));
    assert(file_tail::entry_told(value) == file_tail::message_told(value.get("message"@))) by {
        reveal_strlit("session");
        reveal_strlit("session_info");
        reveal_strlit("model_change");
        reveal_strlit("message");
        reveal_strlit("usage");
        reveal_strlit("compaction");
        reveal_strlit("branch_summary");
        assert("message"@[0] != "session"@[0]);
    }
    reveal_strlit("assistant");
    reveal_strlit("toolResult");
    reveal_strlit("user");
    if let Some(m) = value.get("message"@) {
        assert(m.text("role"@) == terms::words(m.get("role"@)));
        lemma_usage(m.get("usage"@));
        if let Some(JsonView::Array(blocks)) = m.get("content"@) {
            lemma_blocks(blocks);
        }
    }
}

/// A tool's result is told as the end of its call, well exactly where it is no error,
/// and then its usage.
pub proof fn law_tool_result_is_told(value: JsonView)
    requires
        message(value, "toolResult"@),
    ensures
        file_tail::entry_told(value) =~= seq![
            EventView::ToolFinished {
                id: terms::words(terms::inside(value, "message"@, "toolCallId"@)),
                name: terms::words(terms::inside(value, "message"@, "toolName"@)),
                ok: !terms::affirmed(terms::inside(value, "message"@, "isError"@)),
                output: terms::inside(value, "message"@, "content"@),
            },
        ] + accounted(terms::inside(value, "message"@, "usage"@)),
{
    let kind = value.text("type"@);
    assert(kind == terms::words(value.get("type"@)));
    assert(file_tail::entry_told(value) == file_tail::message_told(value.get("message"@))) by {
        reveal_strlit("session");
        reveal_strlit("session_info");
        reveal_strlit("model_change");
        reveal_strlit("message");
        reveal_strlit("usage");
        reveal_strlit("compaction");
        reveal_strlit("branch_summary");
        assert("message"@[0] != "session"@[0]);
    }
    reveal_strlit("assistant");
    reveal_strlit("toolResult");
    reveal_strlit("user");
    if let Some(m) = value.get("message"@) {
        assert(m.text("role"@) == terms::words(m.get("role"@)));
        lemma_usage(m.get("usage"@));
    } else {
        assert(terms::words(terms::inside(value, "message"@, "role"@)).len() == 0);
    }
}

/// A prompt of the user starts a turn.
pub proof fn law_prompt_is_a_turn(value: JsonView)
    requires
        message(value, "user"@),
    ensures
        file_tail::entry_told(value) =~= seq![EventView::TurnStarted],
{
    let kind = value.text("type"@);
    assert(kind == terms::words(value.get("type"@)));
    assert(file_tail::entry_told(value) == file_tail::message_told(value.get("message"@))) by {
        reveal_strlit("session");
        reveal_strlit("session_info");
        reveal_strlit("model_change");
        reveal_strlit("message");
        reveal_strlit("usage");
        reveal_strlit("compaction");
        reveal_strlit("branch_summary");
        assert("message"@[0] != "session"@[0]);
    }
    reveal_strlit("assistant");
    reveal_strlit("toolResult");
    reveal_strlit("user");
    if let Some(m) = value.get("message"@) {
        assert(m.text("role"@) == terms::words(m.get("role"@)));
    } else {
        assert(terms::words(terms::inside(value, "message"@, "role"@)).len() == 0);
    }
}

/// A message of any other role tells nothing.
pub proof fn law_other_messages_are_nothing(value: JsonView)
    requires
        entry(value, "message"@),
        !message(value, "assistant"@),
        !message(value, "toolResult"@),
        !message(value, "user"@),
    ensures
        file_tail::entry_told(value).len() == 0,
{
    let kind = value.text("type"@);
    assert(kind == terms::words(value.get("type"@)));
    assert(file_tail::entry_told(value) == file_tail::message_told(value.get("message"@))) by {
        reveal_strlit("session");
        reveal_strlit("session_info");
        reveal_strlit("model_change");
        reveal_strlit("message");
        reveal_strlit("usage");
        reveal_strlit("compaction");
        reveal_strlit("branch_summary");
        assert("message"@[0] != "session"@[0]);
    }
    if let Some(m) = value.get("message"@) {
        assert(m.text("role"@) == terms::words(m.get("role"@)));
    }
}

/// Usage that is reported by itself, by a compaction or by the summary of a branch is
/// told.
pub proof fn law_reported_usage_is_told(value: JsonView)
    requires
        entry(value, "usage"@) || entry(value, "compaction"@) || entry(value, "branch_summary"@),
    ensures
        file_tail::entry_told(value) =~= accounted(value.get("usage"@)),
{
    let kind = value.text("type"@);
    assert(kind == terms::words(value.get("type"@)));
    assert(file_tail::entry_told(value) == file_tail::usage_told(value.get("usage"@))) by {
        reveal_strlit("session");
        reveal_strlit("session_info");
        reveal_strlit("model_change");
        reveal_strlit("message");
        reveal_strlit("usage");
        reveal_strlit("compaction");
        reveal_strlit("branch_summary");
    }
    lemma_usage(value.get("usage"@));
}

/// Any other entry tells nothing.
pub proof fn law_other_entries_are_nothing(value: JsonView)
    requires
        !entry(value, "session"@),
        !entry(value, "session_info"@),
        !entry(value, "model_change"@),
        !entry(value, "message"@),
        !entry(value, "usage"@),
        !entry(value, "compaction"@),
        !entry(value, "branch_summary"@),
    ensures
        file_tail::entry_told(value).len() == 0,
{
    assert(value.text("type"@) == terms::words(value.get("type"@)));
}

/// A complete line is told before those behind it, unless it is longer than 64 KiB, and
/// no line beyond the budget is.
pub proof fn law_lines_are_told_in_order(line: Seq<u8>, rest: Seq<u8>, budget: nat)
    requires
        forall|i: int| 0 <= i < line.len() ==> #[trigger] line[i] != 10,
    ensures
        file_tail::lines_told(line + seq![10u8] + rest, budget + 1) == (if line.len() <= 65536 {
            file_tail::line_told(line)
        } else {
            Seq::empty()
        }) + file_tail::lines_told(rest, budget),
        file_tail::lines_left(line + seq![10u8] + rest, budget + 1) == file_tail::lines_left(rest, budget),
        file_tail::lines_told(line, budget).len() == 0,
        file_tail::lines_left(line, budget) == line,
        file_tail::lines_told(line + seq![10u8] + rest, 0).len() == 0,
{
    let all = line + seq![10u8] + rest;
    let at = line.len() as int;
    assert forall|k: int| 0 <= k < at implies all[k] != 10 by {
        assert(all[k] == line[k]);
    }
    assert(all[at] == 10);
    lines::lemma_feed_at(all, at);
    lines::lemma_feed_at(line, at);
    assert(all.take(at) =~= line);
    assert(all.skip(at + 1) =~= rest);
}

/// A line tells the entry that it holds; one that holds none tells nothing.
pub proof fn law_line_is_its_entry(line: Seq<u8>)
    ensures
        tree::parsed_bytes(line) matches Ok(value) ==> file_tail::line_told(line) == file_tail::entry_told(value),
        tree::parsed_bytes(line) is Err ==> file_tail::line_told(line).len() == 0,
{
}

/// Files count as those of a launch from two seconds before it.
pub proof fn law_files_of_a_launch(at: Moment)
    requires
        at.seconds >= i64::MIN + 2,
    ensures
        file_tail::cutoff(at).seconds == at.seconds - 2,
        file_tail::cutoff(at).nanos == at.nanos,
{
}

/// Slashes at the start of a directory are left out of its name; every other slash and
/// every colon becomes a hyphen, and every other character stays.
pub proof fn law_directory_has_its_slug(lead: char, cwd: Seq<char>)
    ensures
        lead == '/' || lead == '\\' ==> session_file::slug(seq![lead] + cwd) == session_file::slug(cwd),
        cwd.len() > 0 && cwd[0] != '/' && cwd[0] != '\\' ==> {
            let name = session_file::slug(cwd);
            &&& name.len() == cwd.len()
            &&& forall|i: int|
                0 <= i < cwd.len() ==> #[trigger] name[i] == if cwd[i] == '/' || cwd[i] == '\\' || cwd[i]
                    == ':' {
                    '-'
                } else {
                    cwd[i]
                }
        },
{
    let all = seq![lead] + cwd;
    assert(all[0] == lead);
    assert(all.skip(1) =~= cwd);
}

/// A line is a header exactly where it is an entry of that type with an id.
pub proof fn law_header_names_id_and_directory(line: Seq<char>)
    ensures
        session_file::header_in(line) == match tree::parsed_text(text::trimmed(line)) {
            Some(value) => match (value.get("type"@), value.get("id"@)) {
                (Some(JsonView::Str(kind)), Some(JsonView::Str(id))) => if kind == "session"@ {
                    Some(
                        HeaderView {
                            id,
                            cwd: match value.get("cwd"@) {
                                Some(JsonView::Str(cwd)) => Some(cwd),
                                _ => None,
                            },
                        },
                    )
                } else {
                    None
                },
                _ => None,
            },
            None => None,
        },
{
    if let Some(value) = tree::parsed_text(text::trimmed(line)) {
        if let Some(JsonView::Str(kind)) = value.get("type"@) {
            assert(tree::str_of(value.get("type"@)) == Some(kind));
        }
    }
}

/// A file belongs to a session exactly where its name ends in the id between an
/// underscore and the extension.
pub proof fn law_file_ends_in_its_session(name: Seq<char>, id: Seq<char>, stamp: Seq<char>)
    ensures
        session_file::has_suffix(stamp + "_"@ + id + ".jsonl"@, session_file::file_suffix(id)),
        session_file::has_suffix(name, session_file::file_suffix(id)) ==> exists|lead: Seq<char>| name == #[trigger] (
            lead + ("_"@ + id + ".jsonl"@)
        ),
{
    let end = session_file::file_suffix(id);
    let whole = stamp + "_"@ + id + ".jsonl"@;
    assert(end == "_"@ + id + ".jsonl"@);
    assert(whole =~= stamp + end);
    assert(whole.subrange(whole.len() - end.len(), whole.len() as int) =~= end);
    if session_file::has_suffix(name, end) {
        let at = name.len() - end.len();
        let lead = name.take(at);
        assert(name =~= lead + name.subrange(at, name.len() as int));
        assert(name == lead + ("_"@ + id + ".jsonl"@));
    }
}

/// A file may be that of a new session exactly where it is of the right extension and
/// was written no earlier than the launch.
pub proof fn law_candidate_was_written_since(file: SessionFile, after: Moment)
    ensures
        session_file::is_candidate(file, Some(after)) <==> paths::extension_of(file.path@) == Some("jsonl"@) && file.modified is Some && (file.modified->0.seconds > after.seconds || (file.modified->0.seconds == after.seconds && file.modified->0.nanos >= after.nanos)),
        session_file::is_candidate(file, None) <==> paths::extension_of(file.path@) == Some("jsonl"@) && file.modified is Some,
{
}

/// The name that a line gives its session: that of an entry with one that is not blank, on
/// a line of at most 64 KiB.
pub open spec fn naming(line: Seq<char>) -> Option<Seq<char>> {
    if vstd::utf8::encode_utf8(line).len() > 65536 {
        None
    } else {
        match tree::parsed_text(text::trimmed(line)) {
            Some(value) => if terms::words(value.get("type"@)) == "session_info"@ {
                terms::given(text::trimmed(terms::words(value.get("name"@))))
            } else {
                None
            },
            None => None,
        }
    }
}

proof fn lemma_naming(line: Seq<char>)
    ensures
        session_file::name_in(line) == naming(line),
{
    reveal_strlit("session_info");
    if let Some(value) = tree::parsed_text(text::trimmed(line)) {
        let kind = value.get("type"@);
        if let Some(JsonView::Str(said)) = kind {
            assert(tree::str_of(kind) == Some(said));
        } else {
            assert(tree::str_of(kind) is None);
            assert(terms::words(kind).len() == 0);
        }
        assert(tree::text_of(value.get("name"@)) == terms::words(value.get("name"@)));
    }
}

/// The name of a session is the one that the last naming line gives it; without such a
/// line it has none.
pub proof fn law_last_name_wins(lines: Seq<Seq<char>>)
    ensures
        match session_file::last_name(lines) {
            Some(name) => exists|i: int|
                0 <= i < lines.len() && naming(#[trigger] lines[i]) == Some(name) && forall|j: int|
                    i < j < lines.len() ==> naming(#[trigger] lines[j]) is None,
            None => forall|i: int| 0 <= i < lines.len() ==> naming(#[trigger] lines[i]) is None,
        },
    decreases lines.len(),
{
    if lines.len() > 0 {
        let front = lines.drop_last();
        let last = lines.len() - 1;
        law_last_name_wins(front);
        lemma_naming(lines.last());
        assert(lines[last] == lines.last());
        if naming(lines[last]) is None {
            match session_file::last_name(front) {
                Some(name) => {
                    let i = choose|i: int|
                        0 <= i < front.len() && naming(#[trigger] front[i]) == Some(name) && forall|j: int|
                            i < j < front.len() ==> naming(#[trigger] front[j]) is None;
                    assert(lines[i] == front[i]);
                    assert forall|j: int| i < j < lines.len() implies naming(#[trigger] lines[j]) is None by {
                        if j < last {
                            assert(naming(front[j]) is None);
                        }
                    }
                },
                None => {
                    assert forall|j: int| 0 <= j < lines.len() implies naming(#[trigger] lines[j]) is None by {
                        if j < last {
                            assert(naming(front[j]) is None);
                        }
                    }
                },
            }
        }
    }
}

/// The name is looked for in the first 256 KiB of a file and there in the first 512
/// lines.
pub proof fn law_name_is_read_from_the_start(data: Seq<u8>)
    ensures
        ({
            let read = data.take(if data.len() > 262144 { 262144 } else { data.len() as int });
            let all = text::text_lines(lines::lossy_text(read));
            session_file::session_name(data) == session_file::last_name(
                all.take(if all.len() > 512 { 512 } else { all.len() as int }),
            )
        }),
{
    assert(data.take(data.len() as int) =~= data);
    let read = data.take(if data.len() > 262144 { 262144 } else { data.len() as int });
    let all = text::text_lines(lines::lossy_text(read));
    assert(all.take(all.len() as int) =~= all);
}

/// A command carries its own id, its type and, where it starts a turn, the prompt, and
/// nothing else.
pub proof fn law_command_carries_its_parts(n: u64, kind: Seq<char>, prompt: Seq<char>)
    ensures
        ({
            let id = JsonView::Str("favetto-"@ + text::decimal(n as nat));
            rpc::plain_command(n, kind) matches JsonView::Object(fields) && {
                &&& fields.len() == 2
                &&& fields.contains(("id"@, id))
                &&& fields.contains(("type"@, JsonView::Str(kind)))
            }
        }),
        ({
            let id = JsonView::Str("favetto-"@ + text::decimal(n as nat));
            rpc::prompt_command(n, prompt) matches JsonView::Object(fields) && {
                &&& fields.len() == 3
                &&& fields.contains(("id"@, id))
                &&& fields.contains(("type"@, JsonView::Str("prompt"@)))
                &&& fields.contains(("message"@, JsonView::Str(prompt)))
            }
        }),
{
    let a = rpc::plain_command(n, kind)->Object_0;
    let b = rpc::prompt_command(n, prompt)->Object_0;
    assert(a[0] == ("id"@, JsonView::Str("favetto-"@ + text::decimal(n as nat))));
    assert(a[1] == ("type"@, JsonView::Str(kind)));
    assert(b[0] == ("id"@, JsonView::Str("favetto-"@ + text::decimal(n as nat))));
    assert(b[1] == ("message"@, JsonView::Str(prompt)));
    assert(b[2] == ("type"@, JsonView::Str("prompt"@)));
}

/// A reply carries the id of its dialog and the answer: a value as it is, a
/// confirmation as it was given, a permission as the entry that allows, and a rejection
/// or cancellation as such.
pub proof fn law_reply_answers_its_dialog(id: Seq<char>, reply: InputReply)
    ensures
        rpc::response_to(id, reply) matches JsonView::Object(fields) && {
            &&& fields.len() == 3
            &&& fields.contains(("id"@, JsonView::Str(id)))
            &&& fields.contains(("type"@, JsonView::Str("extension_ui_response"@)))
            &&& match reply {
                InputReply::Value { value } => fields.contains(("value"@, JsonView::Str(value@))),
                InputReply::Confirmed { confirmed } => fields.contains(
                    ("confirmed"@, JsonView::Bool(confirmed)),
                ),
                InputReply::Once => fields.contains(("value"@, JsonView::Str("Allow"@))),
                InputReply::Always => fields.contains(("value"@, JsonView::Str("Allow"@))),
                InputReply::Reject => fields.contains(("cancelled"@, JsonView::Bool(true))),
                InputReply::Cancelled => fields.contains(("cancelled"@, JsonView::Bool(true))),
            }
        },
{
    let fields = rpc::response_to(id, reply)->Object_0;
    assert(fields.len() == 3);
    assert(fields.contains(fields[0]) && fields.contains(fields[1]) && fields.contains(fields[2]));
}

} // verus!
