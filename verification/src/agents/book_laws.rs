//! What callers that change the daemon's books can rely on.
use crate::agent_hooks::{HookRouteError, HookRouter};
use crate::agents::agent::CommandSpec;
use crate::agents::claude::hooks::HookMapper;
use crate::agents::manager;
use crate::agents::manager::Submitter;
use crate::agents::opencode::server::ManagedServer;
use crate::agents::registry;
use crate::agents::registry::{Agent, AgentRegistry, RegistryError, RegistryErrorView};
use crate::agents::sessions::{NewSession, SessionBook, SessionRecord};
use crate::chat::{ChatManager, ModelResponse};
use crate::client::{FrameKind, Pending, Route};
use crate::config::{GitSettings, GitSigning};
use crate::model;
use crate::model::{AgentStateEvent, AwaitingInputReason, MessageRole};
use crate::table::Table;
use vstd::prelude::*;

verus! {

/// Whether no session but `id` changed from `a` to `b`.
pub open spec fn only(a: SessionBook, b: SessionBook, id: Seq<char>) -> bool {
    forall|other: Seq<char>|
        other != id ==> {
            &&& #[trigger] b.sessions@.contains_key(other) == a.sessions@.contains_key(other)
            &&& a.sessions@.contains_key(other) ==> b.sessions@[other] == a.sessions@[other]
        }
}

/// A session that was opened is in the book, runs, and is numbered behind all before it; no
/// other changes.
pub proof fn law_opened_session_is_in_the_book(
    book: &mut SessionBook,
    new: NewSession,
    info: crate::agents::sessions::AgentSessionInfo,
)
    requires
        call_ensures(SessionBook::open, (book, new), info),
    ensures
        final(book).sessions@.contains_key(new.id@),
        final(book).sessions@[new.id@].info.running,
        final(book).sessions@[new.id@].info == info@,
        final(book).sessions@[new.id@].order == old(book).next_order,
        info@.id == new.id@,
        info@.agent == new.agent@,
        only(*old(book), *final(book), new.id@),
{
}

/// A session whose child exited no longer runs and has its code; nothing else of it changes,
/// no other session does, and one that is not in the book is not put there.
pub proof fn law_exit_is_recorded(book: &mut SessionBook, id: &str, code: i32)
    requires
        call_ensures(SessionBook::exited, (book, id, code), ()),
    ensures
        final(book).sessions@.contains_key(id@) == old(book).sessions@.contains_key(id@),
        old(book).sessions@.contains_key(id@) ==> {
            let a = old(book).sessions@[id@];
            let b = final(book).sessions@[id@];
            &&& !b.info.running
            &&& b.exit_code == code
            &&& b.info.session_id == a.info.session_id
            &&& b.info.awaiting_input == a.info.awaiting_input
            &&& b.info.live == a.info.live
            &&& b.info.task_id == a.info.task_id
            &&& b.order == a.order
            &&& b.observed == a.observed
        },
        only(*old(book), *final(book), id@),
{
}

/// A session waits for the reason that is set, and for none once that is cleared; nothing
/// else of it changes, and no other session does.
pub proof fn law_reason_is_recorded(
    book: &mut SessionBook,
    id: &str,
    reason: Option<AwaitingInputReason>,
)
    requires
        call_ensures(SessionBook::set_awaiting_input, (book, id, reason), ()),
    ensures
        final(book).sessions@.contains_key(id@) == old(book).sessions@.contains_key(id@),
        old(book).sessions@.contains_key(id@) ==> {
            let a = old(book).sessions@[id@];
            let b = final(book).sessions@[id@];
            &&& reason is None ==> b.info.awaiting_input is None
            &&& reason is Some ==> b.info.awaiting_input == Some(reason->0@)
            &&& b.info.running == a.info.running
            &&& b.info.live == a.info.live
            &&& b.info.session_id == a.info.session_id
            &&& b.exit_code == a.exit_code
        },
        only(*old(book), *final(book), id@),
{
}

/// An event of a session's channel changes that session alone, and never whether it runs.
pub proof fn law_event_is_recorded(book: &mut SessionBook, id: &str, event: &AgentStateEvent)
    requires
        call_ensures(SessionBook::apply, (book, id, event), ()),
    ensures
        final(book).sessions@.contains_key(id@) == old(book).sessions@.contains_key(id@),
        old(book).sessions@.contains_key(id@) ==> {
            let a = old(book).sessions@[id@];
            let b = final(book).sessions@[id@];
            &&& b.info == a.info.told(event@)
            &&& b.info.running == a.info.running
            &&& b.exit_code == a.exit_code
            &&& b.order == a.order
        },
        only(*old(book), *final(book), id@),
{
}

/// The first id that the output of a session carries is kept; a later one changes nothing.
pub proof fn law_first_captured_id_is_kept(
    book: &mut SessionBook,
    id: &str,
    found: Option<String>,
)
    requires
        call_ensures(SessionBook::capture_id, (book, id, found), ()),
    ensures
        final(book).sessions@.contains_key(id@) == old(book).sessions@.contains_key(id@),
        old(book).sessions@.contains_key(id@) ==> {
            let a = old(book).sessions@[id@].info;
            let b = final(book).sessions@[id@].info;
            &&& a.session_id is Some ==> b.session_id == a.session_id
            &&& a.session_id is None && found is Some ==> b.session_id == Some(found->0@)
            &&& a.session_id is None && found is None ==> b.session_id is None
            &&& b.running == a.running
            &&& b.live == a.live
            &&& b.awaiting_input == a.awaiting_input
        },
        only(*old(book), *final(book), id@),
{
}

/// A closed session is no longer in the book; closing says whether it was.
pub proof fn law_closed_session_is_gone(book: &mut SessionBook, id: &str, closed: bool)
    requires
        call_ensures(SessionBook::close, (book, id), closed),
    ensures
        closed <==> old(book).sessions@.contains_key(id@),
        !final(book).sessions@.contains_key(id@),
        only(*old(book), *final(book), id@),
{
}

/// A session runs, has its exit code and its agent's id as the book says; one that is not
/// there does not run and has neither.
pub proof fn law_book_is_read(
    book: &SessionBook,
    id: &str,
    running: bool,
    code: Option<i32>,
    external: Option<String>,
)
    requires
        call_ensures(SessionBook::is_running, (book, id), running),
        call_ensures(SessionBook::exit_code, (book, id), code),
        call_ensures(SessionBook::external_session_id, (book, id), external),
    ensures
        !book.sessions@.contains_key(id@) ==> !running && code is None && external is None,
        book.sessions@.contains_key(id@) ==> {
            let record = book.sessions@[id@];
            &&& running == record.info.running
            &&& code == Some(record.exit_code)
            &&& external is Some <==> record.info.session_id is Some
            &&& external is Some ==> external->0@ == record.info.session_id->0
        },
{
}

/// A session that does not run waits for nothing. One that does waits for what its agent's
/// own wording shows; without such wording for what any prompt shows, once its screen has
/// been quiet for long enough.
pub proof fn law_own_wording_comes_first(
    record: &SessionRecord,
    agent: &Agent,
    screen: &vt100::Screen,
    quiet_for_ms: u64,
    quiet_ms: u64,
    why: Option<AwaitingInputReason>,
)
    requires
        call_ensures(
            SessionRecord::detect_awaiting_input,
            (record, agent, screen, quiet_for_ms, quiet_ms),
            why,
        ),
    ensures
        ({
            let shown = crate::agents::detect::screen_text(*screen);
            let own = registry::waits(agent@.kind, shown);
            let any = crate::agents::detect::prompted(crate::agents::detect::tail(shown, 5));
            &&& !record.running ==> why is None
            &&& record.running && own is Some ==> why is Some && why->0@ == own->0
            &&& record.running && own is None && quiet_for_ms < quiet_ms ==> why is None
            &&& record.running && own is None && quiet_for_ms >= quiet_ms ==> (why is Some
                <==> any is Some)
            &&& record.running && own is None && why is Some ==> why->0@ == any->0
        }),
{
}

/// A payload for an unknown token reaches nobody, and neither does a body that is no JSON,
/// whatever its token.
pub proof fn law_unknown_token_is_refused(
    router: &mut HookRouter<HookMapper>,
    token: &str,
    body: &[u8],
    count: Result<usize, HookRouteError>,
)
    requires
        call_ensures(HookRouter::<HookMapper>::route, (router, token, body), count),
    ensures
        crate::json::parsed_bytes(body@) is Err ==> count is Err && count->Err_0 is BadRequest
            && final(router)@ == old(router)@,
        crate::json::parsed_bytes(body@) is Ok && !old(router)@.contains_key(token@) ==> count
            == Err::<usize, HookRouteError>(HookRouteError::UnknownToken) && final(router)@ == old(router)@,
        crate::json::parsed_bytes(body@) is Ok && old(router)@.contains_key(token@) ==> count is Ok,
        forall|other: Seq<char>|
            other != token@ && #[trigger] old(router)@.contains_key(other) ==> final(router)@.contains_key(other) && final(router)@[other] == old(router)@[other],
{
}

/// What waits for a session is handed out once.
pub proof fn law_waiting_events_are_taken_once(
    router: &mut HookRouter<HookMapper>,
    token: &str,
    events: Vec<AgentStateEvent>,
)
    requires
        call_ensures(HookRouter::<HookMapper>::take_events, (router, token), events),
    ensures
        old(router)@.contains_key(token@) ==> {
            &&& model::event_views(events@) == old(router)@[token@].outbox
            &&& final(router)@.contains_key(token@)
            &&& final(router)@[token@].outbox.len() == 0
            &&& final(router)@[token@].map == old(router)@[token@].map
        },
        !old(router)@.contains_key(token@) ==> events@.len() == 0 && final(router)@ == old(router)@,
{
}

/// A delivery that was taken is answered with success, a body that is no JSON as a bad
/// request, and an unknown token, or no hooks at all, as not found.
pub proof fn law_delivery_is_answered(
    outcome: &Result<usize, HookRouteError>,
    response: (u16, String),
)
    requires
        call_ensures(crate::agent_hooks::hook_response, (outcome,), response),
    ensures
        outcome is Ok ==> response.0 == 200 && response.1@ == "{}"@,
        outcome is Err && outcome->Err_0 is BadRequest ==> response.0 == 400 && response.1@
            == outcome->Err_0->BadRequest_0@,
        outcome is Err && !(outcome->Err_0 is BadRequest) ==> response.0 == 404,
{
}

/// A request waits from the moment it has its id until its answer came, which comes once.
pub proof fn law_request_waits_for_one_answer(
    pending: &mut Pending,
    frame: FrameKind,
    way: Route,
)
    requires
        call_ensures(Pending::route, (pending, frame), way),
    ensures
        way matches Route::Answer { id } ==> frame == (FrameKind::Response { id }) && old(pending)@.waiting.contains(id) && !final(pending)@.waiting.contains(id),
        frame matches FrameKind::Response { id } ==> (old(pending)@.waiting.contains(id) ==> way
            == (Route::Answer { id })),
        frame is Notification ==> way == Route::Push,
        forall|other: u64|
            frame != (FrameKind::Response { id: other }) ==> #[trigger] final(pending)@.waiting.contains(other) == old(pending)@.waiting.contains(other),
{
}

/// A new request has an id of its own turn and waits; the next one has the next id.
pub proof fn law_request_begins_to_wait(pending: &mut Pending, id: u64)
    requires
        call_ensures(Pending::begin, (pending,), id),
    ensures
        final(pending)@.waiting.contains(id),
        id == old(pending)@.next_id,
        id < u64::MAX ==> final(pending)@.next_id == id + 1,
        id == u64::MAX ==> final(pending)@.next_id == 0,
        forall|other: u64|
            other != id ==> #[trigger] final(pending)@.waiting.contains(other) == old(pending)@.waiting.contains(other),
{
}

/// An agent can be had where it is configured and installed; otherwise the refusal says
/// which of the two it is not.
pub proof fn law_agent_has_to_be_installed(
    registry: &AgentRegistry,
    name: &str,
    agent: Result<&Agent, RegistryError>,
)
    requires
        call_ensures(AgentRegistry::get_checked, (registry, name), agent),
    ensures
        !registry.agents@.contains_key(name@) ==> agent is Err && agent->Err_0@ == (
        RegistryErrorView::NotConfigured { agent: name@ }),
        registry.agents@.contains_key(name@) && registry.agents@[name@].descriptor.available
            ==> agent is Ok && agent->Ok_0@ == registry.agents@[name@],
        registry.agents@.contains_key(name@) && !registry.agents@[name@].descriptor.available
            ==> agent is Err && agent->Err_0@ == (RegistryErrorView::NotInstalled {
            agent: name@,
            command: registry.agents@[name@].descriptor.command,
        }),
{
}

/// A server that keeps failing is restarted five times, and then is no more.
pub proof fn law_restarts_are_bounded(
    server: &mut ManagedServer,
    failures: u32,
    pause_ms: Option<u64>,
)
    requires
        call_ensures(ManagedServer::next_restart, (server, failures), pause_ms),
    ensures
        pause_ms is Some <==> failures < 5,
        failures >= 5 ==> final(server).running is None,
        failures < 5 ==> *final(server) == *old(server),
{
}

/// What a user says stands behind all that was said in the conversation, as theirs.
pub proof fn law_word_is_added(chat: &mut ChatManager, id: &str, words: &str, known: bool)
    requires
        call_ensures(ChatManager::say, (chat, id, words), known),
    ensures
        known <==> old(chat).sessions@.contains_key(id@),
        !known ==> final(chat).sessions@ == old(chat).sessions@,
        known ==> {
            let a = old(chat).sessions@[id@].messages;
            let b = final(chat).sessions@[id@].messages;
            &&& b.len() == a.len() + 1
            &&& forall|i: int| 0 <= i < a.len() ==> #[trigger] b[i] == a[i]
            &&& b[a.len() as int].role == MessageRole::User
            &&& b[a.len() as int].text == words@
        },
{
}

/// What the model answers stands behind all that was said in the conversation, as the
/// assistant's.
pub proof fn law_answer_is_added(
    chat: &mut ChatManager,
    id: &str,
    response: ModelResponse,
    known: bool,
)
    requires
        call_ensures(ChatManager::answer, (chat, id, response), known),
    ensures
        known <==> old(chat).sessions@.contains_key(id@),
        !known ==> final(chat).sessions@ == old(chat).sessions@,
        known ==> {
            let a = old(chat).sessions@[id@].messages;
            let b = final(chat).sessions@[id@].messages;
            &&& b.len() == a.len() + 1
            &&& forall|i: int| 0 <= i < a.len() ==> #[trigger] b[i] == a[i]
            &&& b[a.len() as int].role == MessageRole::Assistant
            &&& response matches ModelResponse::Final { text } ==> b[a.len() as int].text == text@
        },
{
}

/// The signing that a task asks for wins over that of the agent, and an agent's settings for
/// git over the general ones.
pub proof fn law_task_decides_the_signing(
    per_agent: &Table<GitSettings>,
    general: &GitSettings,
    name: &str,
    signing: Option<GitSigning>,
    settings: GitSettings,
)
    requires
        call_ensures(manager::git_settings, (per_agent, general, name, signing), settings),
    ensures
        signing is Some ==> settings@.signing == signing,
        signing is None && per_agent@.contains_key(name@) ==> settings@ == per_agent@[name@],
        signing is None && !per_agent@.contains_key(name@) ==> settings@ == general@,
{
}

/// A child under a supervisor runs that program, any other its own.
pub proof fn law_supervisor_is_run(
    supervisor: Option<&str>,
    spec: &CommandSpec,
    child: (String, Vec<String>),
)
    requires
        call_ensures(manager::child_command, (supervisor, spec), child),
    ensures
        supervisor is Some ==> child.0@ == supervisor->0@ && child.1@.len() == spec.args@.len() + 3,
        supervisor is None ==> child.0@ == spec.program@ && child.1@.len() == spec.args@.len(),
{
    let args = crate::text::views(child.1@);
    assert(args.len() == child.1@.len());
}

/// After a press that the agent reacted to, by four chunks of output behind the second press
/// or a later one, no other follows; after any other press the count goes on.
pub proof fn law_reaction_ends_the_presses(submitter: &mut Submitter, ticks: u64, running: bool)
    requires
        old(submitter).sent < old(submitter).max_sends,
        call_ensures(Submitter::sent, (submitter, ticks), ()),
    ensures
        final(submitter).sent == old(submitter).sent + 1,
        final(submitter).max_sends == old(submitter).max_sends,
        old(submitter).sent >= 1 && ticks >= old(submitter).before + 4 ==> !final(submitter).presses(running),
        old(submitter).sent == 0 || ticks < old(submitter).before + 4 ==> (final(submitter).presses(true) <==> final(submitter).sent < final(submitter).max_sends),
{
}

} // verus!
