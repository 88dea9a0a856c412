//! What callers that look for sessions, read finished runs or speak to pi can rely on.
use crate::agents::agent::{AgentRunResult, OutputView};
use crate::agents::claude::ClaudeAgent;
use crate::agents::configurable::ConfigurableAgent;
use crate::agents::opencode::OpenCodeAgent;
use crate::agents::pi::file_tail;
use crate::agents::pi::file_tail::SessionTail;
use crate::agents::pi::rpc;
use crate::agents::pi::rpc::{PiCommand, PiRpcClient, PiRpcSource};
use crate::agents::pi::session_file;
use crate::agents::pi::session_file::SessionFile;
use crate::agents::registry_laws;
use crate::agents::sessions::{AgentSessionInfo, SessionBook};
use crate::agents::template_laws;
use crate::agents::vibe::session_index;
use crate::agents::vibe::session_index::SessionStore;
use crate::agents::vibe::store_laws;
use crate::agents::vibe::VibeAgent;
use crate::catalog_watch;
use crate::chat::{ChatManager, ChatSession, ChatTask};
use crate::desk_laws;
use crate::json as tree;
use crate::model::{AgentUsage, MessageRole, Moment};
use crate::paths;
use crate::text;
use vstd::prelude::*;

verus! {

/// Whether a listed file belongs to a session.
pub open spec fn belongs(file: SessionFile, id: Seq<char>) -> bool {
    session_file::has_suffix(file.name@, "_"@ + id + ".jsonl"@)
}

/// A known session is followed in its newest file, from where that ends; it is not followed
/// where it has none.
pub proof fn law_known_session_is_followed(
    known: &Option<String>,
    listed: &Vec<SessionFile>,
    baseline: Moment,
    target: Option<(String, bool)>,
)
    requires
        call_ensures(file_tail::locate, (known, listed, baseline), target),
        known is Some,
    ensures
        target is Some <==> exists|i: int|
            0 <= i < listed@.len() && belongs(#[trigger] listed@[i], known->0@),
        target matches Some((path, skip)) ==> skip && exists|i: int|
            0 <= i < listed@.len() && belongs(#[trigger] listed@[i], known->0@) && path@
                == listed@[i].path@ && forall|j: int|
                0 <= j < listed@.len() && belongs(#[trigger] listed@[j], known->0@)
                    ==> !text::precedes(listed@[i].name@, listed@[j].name@) || listed@[j].name@
                    == listed@[i].name@,
{
    let id = known->0@;
    assert(session_file::file_suffix(id) == "_"@ + id + ".jsonl"@);
    if target is Some {
        let i = choose|i: int| #[trigger] session_file::newest_named(listed@, id, i) && (target->0).0@
            == listed@[i].path@;
        assert(belongs(listed@[i], id));
        assert forall|j: int|
            0 <= j < listed@.len() && belongs(#[trigger] listed@[j], id) implies !text::precedes(
            listed@[i].name@,
            listed@[j].name@,
        ) || listed@[j].name@ == listed@[i].name@ by {
            if j < i {
                lemma_one_way(listed@[j].name@, listed@[i].name@);
            }
        }
    }
}

proof fn lemma_one_way(a: Seq<char>, b: Seq<char>)
    requires
        text::precedes(a, b),
    ensures
        !text::precedes(b, a),
{
    if text::precedes(b, a) {
        text::lemma_precedes_transitive(a, b, a);
        lemma_not_before_itself(a);
    }
}

proof fn lemma_not_before_itself(a: Seq<char>)
    ensures
        !text::precedes(a, a),
    decreases a.len(),
{
    if a.len() > 0 {
        lemma_not_before_itself(a.skip(1));
    }
}

/// A new session is followed in the file that was written last since its launch, from its
/// start; it is not followed where there is none.
pub proof fn law_new_session_is_followed(
    known: &Option<String>,
    listed: &Vec<SessionFile>,
    baseline: Moment,
    target: Option<(String, bool)>,
)
    requires
        call_ensures(file_tail::locate, (known, listed, baseline), target),
        known is None,
    ensures
        ({
            let since = Some(file_tail::cutoff(baseline));
            &&& target is Some <==> exists|i: int|
                0 <= i < listed@.len() && session_file::is_candidate(#[trigger] listed@[i], since)
            &&& target matches Some((path, skip)) ==> !skip && exists|i: int|
                0 <= i < listed@.len() && session_file::is_candidate(#[trigger] listed@[i], since)
                    && path@ == listed@[i].path@ && forall|j: int|
                    0 <= j < listed@.len() && session_file::is_candidate(
                        #[trigger] listed@[j],
                        since,
                    ) ==> listed@[i].modified->0.at_or_after(listed@[j].modified->0)
        }),
{
    let since = Some(file_tail::cutoff(baseline));
    if target is Some {
        let i = choose|i: int| #[trigger] session_file::newest_written(listed@, since, i)
            && (target->0).0@ == listed@[i].path@;
        assert(session_file::is_candidate(listed@[i], since));
        assert forall|j: int|
            0 <= j < listed@.len() && session_file::is_candidate(
                #[trigger] listed@[j],
                since,
            ) implies listed@[i].modified->0.at_or_after(listed@[j].modified->0) by {
            template_laws::law_moments_are_ordered(
                listed@[i].modified->0,
                listed@[j].modified->0,
            );
        }
    }
}

/// A file whose history is to be skipped is read from its end, any other from its start.
pub proof fn law_history_is_skipped(path: String, len: u64, skip: bool, tail: SessionTail)
    requires
        call_ensures(SessionTail::open, (path, len, skip), tail),
    ensures
        skip ==> tail.offset == len,
        !skip ==> tail.offset == 0,
        tail.path@ == path@,
        tail.pending@.len() == 0,
{
}

/// A run that begins asks pi for the session, and then gives it the prompt, where there is
/// one; each command is one line under an id of its own.
pub proof fn law_run_of_pi_begins(
    source: &PiRpcSource,
    prompt: &Option<String>,
    begun: (Vec<PiCommand>, PiRpcClient, crate::agents::pi::json::PiJsonlParser),
)
    requires
        call_ensures(PiRpcSource::start, (source, prompt), begun),
    ensures
        ({
            let commands = begun.0@;
            &&& commands.len() == if prompt is Some {
                2nat
            } else {
                1
            }
            &&& commands[0].line@ == tree::written(rpc::plain_command(0, "get_state"@)).push('\n')
            &&& prompt is Some ==> commands[1].line@ == tree::written(
                rpc::prompt_command(1, prompt->0@),
            ).push('\n')
            &&& prompt is Some ==> commands[0].id@ != commands[1].id@
            &&& begun.2@.holds_stdin
        }),
{
    rpc::law_command_ids_differ(0, 1);
}

/// A turn is started with the prompt as it is, and the next command has the next id.
pub proof fn law_turn_is_started(client: &mut PiRpcClient, message: &str, command: PiCommand)
    requires
        call_ensures(PiRpcClient::prompt, (client, message), command),
    ensures
        command.line@ == tree::written(rpc::prompt_command(old(client).next_id, message@)).push(
            '\n',
        ),
        command.id@ == "favetto-"@ + text::decimal(old(client).next_id as nat),
        old(client).next_id < u64::MAX ==> final(client).next_id == old(client).next_id + 1,
{
}

/// A turn is stopped by a command for that.
pub proof fn law_turn_is_stopped(client: &mut PiRpcClient, command: PiCommand)
    requires
        call_ensures(PiRpcClient::abort, (client,), command),
    ensures
        command.line@ == tree::written(rpc::plain_command(old(client).next_id, "abort"@)).push('\n'),
        old(client).next_id < u64::MAX ==> final(client).next_id == old(client).next_id + 1,
{
}

/// The session that a task goes back to is one of its own, and none of them is later.
pub proof fn law_task_goes_back_to_its_latest_session(
    book: &SessionBook,
    task: &str,
    info: Option<AgentSessionInfo>,
)
    requires
        call_ensures(SessionBook::find_latest_by_task, (book, task), info),
    ensures
        info is Some <==> exists|id: Seq<char>| #[trigger]
            book.sessions@.contains_key(id) && book.sessions@[id].info.task_id == Some(task@),
        info is Some ==> exists|id: Seq<char>| #[trigger]
            book.sessions@.contains_key(id) && info->0@ == book.sessions@[id].info
                && book.sessions@[id].info.task_id == Some(task@) && forall|other: Seq<char>|
                #[trigger]
                book.sessions@.contains_key(other) && book.sessions@[other].info.task_id == Some(
                    task@,
                ) ==> book.sessions@[other].order <= book.sessions@[id].order,
{
    if info is Some {
        let id = choose|id: Seq<char>| #[trigger]
            crate::agents::sessions::latest(book.sessions@, task@, id) && info->0@
                == book.sessions@[id].info;
        assert(book.sessions@.contains_key(id));
    }
}

/// A run keeps what its agent put out and its exit code, whichever agent it is.
pub proof fn law_finished_run_is_kept(
    claude: &ClaudeAgent,
    vibe: &VibeAgent,
    opencode: &OpenCodeAgent,
    plain: &ConfigurableAgent,
    raw: &str,
    code: Option<i32>,
    results: (AgentRunResult, AgentRunResult, AgentRunResult, AgentRunResult),
)
    requires
        call_ensures(ClaudeAgent::parse_output, (claude, raw, code), results.0),
        call_ensures(VibeAgent::parse_output, (vibe, raw, code), results.1),
        call_ensures(OpenCodeAgent::parse_output, (opencode, raw, code), results.2),
        call_ensures(ConfigurableAgent::parse_output, (plain, raw, code), results.3),
    ensures
        results.0@.raw == raw@ && results.0@.exit_code == code,
        results.1@.raw == raw@ && results.1@.exit_code == code,
        results.2@.raw == raw@ && results.2@.exit_code == code,
        results.3@.raw == raw@ && results.3@.exit_code == code,
        !plain.plain_jsonl ==> results.3@.output == OutputView::Text(raw@),
        plain.plain_jsonl ==> results.3@.output is Summary,
        results.2@.output is Summary,
{
    registry_laws::law_run_keeps_its_output(raw@, code);
}

/// A change concerns the catalog where nothing is known of it, or where any of its paths
/// may be a task's.
pub proof fn law_any_path_may_concern(changed: &Vec<String>, relevant: bool, i: int)
    requires
        call_ensures(catalog_watch::event_relevant, (changed,), relevant),
        0 <= i < changed@.len(),
    ensures
        paths::extension_of(changed@[i]@) is None ==> relevant,
        paths::extension_of(changed@[i]@) == Some("md"@) ==> relevant,
        relevant ==> exists|k: int|
            0 <= k < changed@.len() && catalog_watch::concerns_task(#[trigger] changed@[k]@),
{
    reveal_strlit("md");
    desk_laws::law_tasks_are_known_by_their_extension(changed@[i]@, "md"@);
    assert("md"@.len() == 2 && "md"@[0] == 'm' && "md"@[1] == 'd');
    if paths::extension_of(changed@[i]@) is None || paths::extension_of(changed@[i]@) == Some("md"@) {
        assert(catalog_watch::concerns_task(changed@[i]@));
    }
}

/// A new conversation is open, with the two messages that it starts with; a task that its id
/// does not name plays no part in it.
pub proof fn law_conversation_is_opened(
    chat: &mut ChatManager,
    task_id: Option<String>,
    task: Option<ChatTask>,
    session: ChatSession,
)
    requires
        call_ensures(ChatManager::open, (chat, task_id, task), session),
    ensures
        final(chat).sessions@.contains_key(session@.id),
        final(chat).sessions@[session@.id] == session@,
        session@.messages.len() == 2,
        session@.messages[0].role == MessageRole::System,
        session@.messages[1].role == MessageRole::User,
        task_id is None ==> session@.messages[1].text == "Hello!"@,
{
}

/// The usage and the directory of a recorded session are those that the index leads to.
pub proof fn law_recorded_session_is_read(
    root: &str,
    store: &SessionStore,
    id: &str,
    dir: Option<String>,
    usage: Option<AgentUsage>,
)
    requires
        call_ensures(session_index::session_dir, (root, store, id), dir),
        call_ensures(session_index::read_meta_usage, (store, id), usage),
    ensures
        usage == match session_index::session_meta(*store, id@) {
            Some(meta) => session_index::meta_usage(meta),
            None => None,
        },
        forall|at: int|
            0 <= at < store_laws::records(*store).len() && (#[trigger] store_laws::records(
                *store,
            )[at]).id == id@ && (forall|i: int|
                0 <= i < at ==> (#[trigger] store_laws::records(*store)[i]).id != id@) ==> dir is Some
                && dir->0@ == paths::joined(
                session_index::sessions_path(root@),
                store_laws::records(*store)[at].key,
            ),
{
    assert forall|at: int|
        0 <= at < store_laws::records(*store).len() && (#[trigger] store_laws::records(
            *store,
        )[at]).id == id@ && (forall|i: int|
            0 <= i < at ==> (#[trigger] store_laws::records(*store)[i]).id != id@) implies dir is Some
        && dir->0@ == paths::joined(
        session_index::sessions_path(root@),
        store_laws::records(*store)[at].key,
    ) by {
        store_laws::lemma_entry_at(store_laws::records(*store), id@, 0, at);
    }
}

} // verus!
