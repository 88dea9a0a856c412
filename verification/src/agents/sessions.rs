//! What the daemon keeps of each session.
use crate::agents::detect;
use crate::agents::detect::{contents_of, generic_awaiting_input};
use crate::agents::registry;
use crate::agents::registry::Agent;
use crate::agents::state::{ActivityView, AgentActivity, AgentLiveState, LiveView};
use crate::ids;
use crate::ids::new_id;
use crate::json;
use crate::model;
use crate::model::{
    copy_text, copy_texts, AgentStateEvent, AgentUsage, AwaitingInputReason, EventView,
    ReasonView,
};
use crate::table;
use crate::table::Table;
use crate::text;
use vstd::prelude::*;

verus! {

/// What attached clients are told of a session.
#[derive(Debug, PartialEq, Eq)]
pub enum AgentEvent {
    /// A screen that clears itself before it is drawn.
    Output { session_id: String, data: Vec<u8> },
    Exit { session_id: String, code: Option<i32> },
    /// The live state changed.
    State { session_id: String, live: AgentLiveState },
}

impl AgentEvent {
    /// The session that the event belongs to.
    pub fn session_id(&self) -> (id: &str)
        ensures
            id@ == match *self {
                AgentEvent::Output { session_id, .. } => session_id@,
                AgentEvent::Exit { session_id, .. } => session_id@,
                AgentEvent::State { session_id, .. } => session_id@,
            },
    {
        match self {
            AgentEvent::Output { session_id, .. } => session_id.as_str(),
            AgentEvent::Exit { session_id, .. } => session_id.as_str(),
            AgentEvent::State { session_id, .. } => session_id.as_str(),
        }
    }
}

/// What is shown of a session.
#[derive(Debug, PartialEq, Eq)]
pub struct AgentSessionInfo {
    pub id: String,
    pub agent: String,
    pub task_id: Option<String>,
    pub running: bool,
    pub headless: bool,
    /// The agent's own id of the session.
    pub session_id: Option<String>,
    pub awaiting_input: Option<AwaitingInputReason>,
    pub activity: Option<AgentActivity>,
    pub usage: Option<AgentUsage>,
}

/// [`AgentSessionInfo`] over mathematical values.
pub struct InfoView {
    pub id: Seq<char>,
    pub agent: Seq<char>,
    pub task_id: Option<Seq<char>>,
    pub running: bool,
    pub headless: bool,
    pub session_id: Option<Seq<char>>,
    pub awaiting_input: Option<ReasonView>,
    pub live: LiveView,
}

impl View for AgentSessionInfo {
    type V = InfoView;

    open spec fn view(&self) -> InfoView {
        InfoView {
            id: self.id@,
            agent: self.agent@,
            task_id: model::opt_text(self.task_id),
            running: self.running,
            headless: self.headless,
            session_id: model::opt_text(self.session_id),
            awaiting_input: model::opt_reason(self.awaiting_input),
            live: LiveView {
                activity: match self.activity {
                    Some(activity) => Some(activity@),
                    None => None,
                },
                usage: self.usage,
            },
        }
    }
}

/// What the daemon keeps of a session.
#[derive(Debug, PartialEq, Eq)]
pub struct SessionRecord {
    pub id: String,
    pub agent: String,
    pub task_id: Option<String>,
    pub running: bool,
    /// The exit code of the child; minus one until it exits.
    pub exit_code: i32,
    pub headless: bool,
    pub external_session_id: Option<String>,
    pub awaiting_input: Option<AwaitingInputReason>,
    pub live: AgentLiveState,
    /// Whether a channel of the agent is observed.
    pub observed: bool,
    /// The order of creation.
    pub order: u64,
}

/// [`SessionRecord`] over mathematical values.
pub struct RecordView {
    pub info: InfoView,
    pub exit_code: i32,
    pub observed: bool,
    pub order: u64,
}

impl View for SessionRecord {
    type V = RecordView;

    open spec fn view(&self) -> RecordView {
        RecordView {
            info: InfoView {
                id: self.id@,
                agent: self.agent@,
                task_id: model::opt_text(self.task_id),
                running: self.running,
                headless: self.headless,
                session_id: model::opt_text(self.external_session_id),
                awaiting_input: model::opt_reason(self.awaiting_input),
                live: self.live@,
            },
            exit_code: self.exit_code,
            observed: self.observed,
            order: self.order,
        }
    }
}

/// The reason to wait that a request is.
pub open spec fn reason_of(request: model::InputRequestView) -> ReasonView {
    ReasonView {
        kind: request.kind,
        message: request.message,
        request_id: Some(request.id),
        options: request.options,
        allow_always: request.allow_always,
    }
}

impl InfoView {
    /// The session after one more event of its channel: its live state follows; a
    /// request makes it wait, and an answer or rest ends that; an identity fills an
    /// empty slot and never takes the place of another.
    pub open spec fn told(self, event: EventView) -> InfoView {
        InfoView {
            live: self.live.applied(event),
            awaiting_input: match event {
                EventView::InputRequested { request } => Some(reason_of(request)),
                EventView::InputResolved { .. } => None,
                EventView::Idle { .. } => None,
                _ => self.awaiting_input,
            },
            session_id: match event {
                EventView::Session { session_id, .. } => match session_id {
                    Some(id) if id.len() > 0 => json::first_of(self.session_id, Some(id)),
                    _ => self.session_id,
                },
                _ => self.session_id,
            },
            ..self
        }
    }
}

impl SessionRecord {
    /// What is shown of the session.
    pub fn info(&self) -> (info: AgentSessionInfo)
        ensures
            info@ == self@.info,
    {
        let live = self.live.clone();
        AgentSessionInfo {
            id: self.id.clone(),
            agent: self.agent.clone(),
            task_id: copy_text(&self.task_id),
            running: self.running,
            headless: self.headless,
            session_id: copy_text(&self.external_session_id),
            awaiting_input: match &self.awaiting_input {
                Some(reason) => Some(reason.clone()),
                None => None,
            },
            activity: live.activity,
            usage: live.usage,
        }
    }

    /// Takes one more event of the session's channel.
    pub fn apply(&mut self, event: &AgentStateEvent)
        ensures
            final(self)@ == (RecordView { info: old(self)@.info.told(event@), ..old(self)@ }),
    {
        self.live.apply(event);
        match event {
            AgentStateEvent::InputRequested { request } => {
                self.awaiting_input = Some(
                    AwaitingInputReason {
                        kind: request.kind,
                        message: request.message.clone(),
                        request_id: Some(request.id.clone()),
                        options: copy_texts(&request.options),
                        allow_always: request.allow_always,
                    },
                );
            },
            AgentStateEvent::InputResolved { .. } => {
                self.awaiting_input = None;
            },
            AgentStateEvent::Idle { .. } => {
                self.awaiting_input = None;
            },
            AgentStateEvent::Session { session_id, .. } => {
                if let Some(id) = session_id {
                    if !id.as_str().is_empty() && self.external_session_id.is_none() {
                        self.external_session_id = Some(id.clone());
                    }
                }
            },
            _ => {},
        }
    }

    /// The child has exited.
    pub fn exited(&mut self, code: i32)
        ensures
            final(self)@ == (RecordView {
                info: InfoView { running: false, ..old(self)@.info },
                exit_code: code,
                ..old(self)@
            }),
    {
        self.running = false;
        self.exit_code = code;
    }

    /// Whether the session is blocked on its user: by the agent's own wording at once,
    /// by any prompt once its screen has been quiet. A session that does not run is
    /// not.
    pub fn detect_awaiting_input(
        &self,
        agent: &Agent,
        screen: &vt100::Screen,
        quiet_for_ms: u64,
        quiet_ms: u64,
    ) -> (why: Option<AwaitingInputReason>)
        ensures
            model::opt_reason(why) == if !self@.info.running {
                None
            } else {
                json::first_of(
                    registry::waits(agent@.kind, detect::screen_text(*screen)),
                    if quiet_for_ms >= quiet_ms {
                        detect::prompted(detect::tail(detect::screen_text(*screen), 5))
                    } else {
                        None
                    },
                )
            },
    {
        if !self.running {
            return None;
        }
        let specific = agent.awaiting_input(screen);
        if specific.is_some() {
            return specific;
        }
        if quiet_for_ms >= quiet_ms {
            generic_awaiting_input(contents_of(screen).as_str())
        } else {
            None
        }
    }
}

/// An identity that a session has is never changed by what its channel tells.
pub proof fn law_identity_is_kept(info: InfoView, events: Seq<EventView>)
    requires
        info.session_id is Some,
    ensures
        after(info, events).session_id == info.session_id,
    decreases events.len(),
{
    if events.len() > 0 {
        law_identity_is_kept(info, events.drop_last());
    }
}

/// A session after several events of its channel.
pub open spec fn after(info: InfoView, events: Seq<EventView>) -> InfoView
    decreases events.len(),
{
    if events.len() == 0 {
        info
    } else {
        after(info, events.drop_last()).told(events.last())
    }
}

/// A session waits in its list just when its live state shows that it waits, where
/// its channel has told of a request and nothing was told behind it.
pub proof fn law_waiting_shows_in_both(info: InfoView, request: model::InputRequestView)
    ensures
        info.told(EventView::InputRequested { request }).awaiting_input == Some(
            reason_of(request),
        ),
        info.told(EventView::InputRequested { request }).live.activity == Some(
            ActivityView::Waiting { request },
        ),
        info.told(EventView::InputRequested { request }).told(
            EventView::InputResolved { id: request.id },
        ).awaiting_input is None,
        info.told(EventView::InputRequested { request }).told(
            EventView::InputResolved { id: request.id },
        ).live.activity == Some(ActivityView::Idle),
{
}

/// What a new session is known by.
pub struct NewSession {
    pub id: String,
    pub agent: String,
    pub task_id: Option<String>,
    pub headless: bool,
    pub external_session_id: Option<String>,
    pub observed: bool,
}

impl NewSession {
    /// A session under a new random id, which nothing observes yet.
    pub fn new(
        agent: String,
        task_id: Option<String>,
        headless: bool,
        external_session_id: Option<String>,
    ) -> (new: NewSession)
        ensures
            ids::id_form(new.id@),
            new.agent == agent,
            new.task_id == task_id,
            new.headless == headless,
            new.external_session_id == external_session_id,
            !new.observed,
    {
        NewSession {
            id: new_id(),
            agent,
            task_id,
            headless,
            external_session_id,
            observed: false,
        }
    }
}

/// A session at its start.
pub open spec fn opened(new: NewSession, order: u64) -> RecordView {
    RecordView {
        info: InfoView {
            id: new.id@,
            agent: new.agent@,
            task_id: model::opt_text(new.task_id),
            running: true,
            headless: new.headless,
            session_id: model::opt_text(new.external_session_id),
            awaiting_input: None,
            live: LiveView {
                activity: if new.observed {
                    Some(ActivityView::Starting)
                } else {
                    None
                },
                usage: None,
            },
        },
        exit_code: -1i32,
        observed: new.observed,
        order,
    }
}

/// The sessions of the daemon.
#[derive(Debug)]
pub struct SessionBook {
    pub sessions: Table<SessionRecord>,
    pub next_order: u64,
}

/// Whether `info` is the latest session of a task: none of its sessions was created
/// behind it.
pub open spec fn latest(
    sessions: Map<Seq<char>, RecordView>,
    task_id: Seq<char>,
    id: Seq<char>,
) -> bool {
    &&& sessions.contains_key(id)
    &&& sessions[id].info.task_id == Some(task_id)
    &&& forall|other: Seq<char>| #[trigger]
        sessions.contains_key(other) && sessions[other].info.task_id == Some(task_id)
            ==> sessions[other].order <= sessions[id].order
}

/// What a session that is not there is refused with.
pub fn unknown_session(session_id: &str) -> (message: String)
    ensures
        message@ == "no agent session '"@ + session_id@ + "'"@,
{
    "no agent session '".to_owned().concat(session_id).concat("'")
}

/// What a reply to a session without a channel is refused with.
pub fn no_input_channel(session_id: &str) -> (message: String)
    ensures
        message@ == "agent session '"@ + session_id@ + "' has no structured input channel"@,
{
    "agent session '".to_owned().concat(session_id).concat("' has no structured input channel")
}

impl SessionBook {
    pub fn new() -> (book: SessionBook)
        ensures
            book.sessions@ == Map::<Seq<char>, RecordView>::empty(),
            book.next_order == 0,
    {
        SessionBook { sessions: Table::new(), next_order: 0 }
    }

    /// Adds a session, and returns what is shown of it.
    pub fn open(&mut self, new: NewSession) -> (info: AgentSessionInfo)
        ensures
            info@ == opened(new, old(self).next_order).info,
            final(self).sessions@ == old(self).sessions@.insert(
                new.id@,
                opened(new, old(self).next_order),
            ),
            final(self).next_order == if old(self).next_order == u64::MAX {
                0
            } else {
                (old(self).next_order + 1) as u64
            },
    {
        let order: u64 = self.next_order;
        self.next_order = if order == u64::MAX {
            0
        } else {
            order + 1
        };
        let record = SessionRecord {
            id: new.id.clone(),
            agent: new.agent,
            task_id: new.task_id,
            running: true,
            exit_code: -1,
            headless: new.headless,
            external_session_id: new.external_session_id,
            awaiting_input: None,
            live: AgentLiveState {
                activity: if new.observed {
                    Some(AgentActivity::Starting)
                } else {
                    None
                },
                usage: None,
            },
            observed: new.observed,
            order,
        };
        let info = record.info();
        self.sessions.insert(new.id, record);
        info
    }

    /// What is shown of every session, in the order of their ids.
    pub fn sessions(&self) -> (infos: Vec<AgentSessionInfo>)
        ensures
            exists|ids: Seq<Seq<char>>| #[trigger]
                text::ascending(ids) && ids.len() == infos@.len() && (forall|k: Seq<char>|
                    #[trigger] ids.contains(k) <==> self.sessions@.contains_key(k)) && (forall|
                    i: int,
                |
                    0 <= i < ids.len() ==> (#[trigger] infos@[i])@
                        == self.sessions@[ids[i]].info),
    {
        let ids = self.sessions.sorted_keys();
        let ghost all = text::views(ids@);
        let mut infos: Vec<AgentSessionInfo> = Vec::new();
        let mut i: usize = 0;
        while i < ids.len()
            invariant
                i <= ids@.len(),
                all == text::views(ids@),
                forall|k: Seq<char>|
                    #[trigger] all.contains(k) <==> self.sessions@.contains_key(k),
                infos@.len() == i,
                forall|j: int|
                    0 <= j < i ==> (#[trigger] infos@[j])@ == self.sessions@[all[j]].info,
            decreases ids@.len() - i,
        {
            assert(all[i as int] == ids@[i as int]@);
            assert(all.contains(all[i as int]));
            match self.sessions.get(ids[i].as_str()) {
                Some(record) => {
                    infos.push(record.info());
                },
                None => {
                    assert(false);
                },
            }
            i += 1;
        }
        infos
    }

    /// What is shown of the latest session of a task, running or not: opening a task
    /// goes back to it.
    pub fn find_latest_by_task(&self, task_id: &str) -> (info: Option<AgentSessionInfo>)
        ensures
            match info {
                Some(info) => exists|id: Seq<char>| #[trigger]
                    latest(self.sessions@, task_id@, id) && info@ == self.sessions@[id].info,
                None => forall|id: Seq<char>| #[trigger]
                    self.sessions@.contains_key(id) ==> self.sessions@[id].info.task_id != Some(
                        task_id@,
                    ),
            },
    {
        let ids = self.sessions.sorted_keys();
        let ghost all = text::views(ids@);
        let mut best: Option<usize> = None;
        let mut best_order: u64 = 0;
        let mut i: usize = 0;
        while i < ids.len()
            invariant
                i <= ids@.len(),
                all == text::views(ids@),
                forall|k: Seq<char>|
                    #[trigger] all.contains(k) <==> self.sessions@.contains_key(k),
                match best {
                    Some(b) => {
                        &&& b < i
                        &&& self.sessions@.contains_key(all[b as int])
                        &&& self.sessions@[all[b as int]].info.task_id == Some(task_id@)
                        &&& self.sessions@[all[b as int]].order == best_order
                        &&& forall|j: int|
                            0 <= j < i && self.sessions@[#[trigger] all[j]].info.task_id == Some(
                                task_id@,
                            ) ==> self.sessions@[all[j]].order <= best_order
                    },
                    None => forall|j: int|
                        0 <= j < i ==> self.sessions@[#[trigger] all[j]].info.task_id != Some(
                            task_id@,
                        ),
                },
            decreases ids@.len() - i,
        {
            assert(all[i as int] == ids@[i as int]@);
            assert(all.contains(all[i as int]));
            if let Some(record) = self.sessions.get(ids[i].as_str()) {
                let owns = match &record.task_id {
                    Some(task) => text::str_eq(task.as_str(), task_id),
                    None => false,
                };
                if owns && (best.is_none() || record.order >= best_order) {
                    best = Some(i);
                    best_order = record.order;
                }
            }
            i += 1;
        }
        proof {
            assert forall|id: Seq<char>| #[trigger] self.sessions@.contains_key(id) implies exists|
                j: int,
            |
                0 <= j < all.len() && #[trigger] all[j] == id by {
                assert(all.contains(id));
            }
        }
        match best {
            Some(b) => {
                assert(latest(self.sessions@, task_id@, all[b as int]));
                match self.sessions.get(ids[b].as_str()) {
                    Some(record) => Some(record.info()),
                    None => None,
                }
            },
            None => None,
        }
    }

    /// Records or clears why a session waits.
    pub fn set_awaiting_input(&mut self, session_id: &str, reason: Option<AwaitingInputReason>)
        ensures
            final(self).next_order == old(self).next_order,
            final(self).sessions@ == match table::lookup(old(self).sessions@, session_id@) {
                Some(record) => old(self).sessions@.insert(
                    session_id@,
                    RecordView {
                        info: InfoView {
                            awaiting_input: model::opt_reason(reason),
                            ..record.info
                        },
                        ..record
                    },
                ),
                None => old(self).sessions@,
            },
    {
        let ghost before = self.sessions@;
        match self.sessions.remove(session_id) {
            Some(record) => {
                let mut record = record;
                record.awaiting_input = reason;
                let ghost changed = record@;
                self.sessions.insert(session_id.to_owned(), record);
                assert(self.sessions@ =~= before.insert(session_id@, changed));
            },
            None => {
                assert(self.sessions@ =~= before);
            },
        }
    }

    /// Takes one more event of a session's channel.
    pub fn apply(&mut self, session_id: &str, event: &AgentStateEvent)
        ensures
            final(self).next_order == old(self).next_order,
            final(self).sessions@ == match table::lookup(old(self).sessions@, session_id@) {
                Some(record) => old(self).sessions@.insert(
                    session_id@,
                    RecordView { info: record.info.told(event@), ..record },
                ),
                None => old(self).sessions@,
            },
    {
        let ghost before = self.sessions@;
        match self.sessions.remove(session_id) {
            Some(record) => {
                let mut record = record;
                record.apply(event);
                let ghost changed = record@;
                self.sessions.insert(session_id.to_owned(), record);
                assert(self.sessions@ =~= before.insert(session_id@, changed));
            },
            None => {
                assert(self.sessions@ =~= before);
            },
        }
    }

    /// Takes the agent's own id, where the session's output carried one; an id that is
    /// known already stays.
    pub fn capture_id(&mut self, session_id: &str, found: Option<String>)
        ensures
            final(self).next_order == old(self).next_order,
            final(self).sessions@ == match table::lookup(old(self).sessions@, session_id@) {
                Some(record) => old(self).sessions@.insert(
                    session_id@,
                    RecordView {
                        info: InfoView {
                            session_id: json::first_of(
                                record.info.session_id,
                                model::opt_text(found),
                            ),
                            ..record.info
                        },
                        ..record
                    },
                ),
                None => old(self).sessions@,
            },
    {
        let ghost before = self.sessions@;
        match self.sessions.remove(session_id) {
            Some(record) => {
                let mut record = record;
                if record.external_session_id.is_none() {
                    record.external_session_id = found;
                }
                let ghost changed = record@;
                self.sessions.insert(session_id.to_owned(), record);
                assert(self.sessions@ =~= before.insert(session_id@, changed));
            },
            None => {
                assert(self.sessions@ =~= before);
            },
        }
    }

    /// A session's child has exited.
    pub fn exited(&mut self, session_id: &str, code: i32)
        ensures
            final(self).next_order == old(self).next_order,
            final(self).sessions@ == match table::lookup(old(self).sessions@, session_id@) {
                Some(record) => old(self).sessions@.insert(
                    session_id@,
                    RecordView {
                        info: InfoView { running: false, ..record.info },
                        exit_code: code,
                        ..record
                    },
                ),
                None => old(self).sessions@,
            },
    {
        let ghost before = self.sessions@;
        match self.sessions.remove(session_id) {
            Some(record) => {
                let mut record = record;
                record.exited(code);
                let ghost changed = record@;
                self.sessions.insert(session_id.to_owned(), record);
                assert(self.sessions@ =~= before.insert(session_id@, changed));
            },
            None => {
                assert(self.sessions@ =~= before);
            },
        }
    }

    /// Whether a session's child runs.
    pub fn is_running(&self, session_id: &str) -> (running: bool)
        ensures
            running == match table::lookup(self.sessions@, session_id@) {
                Some(record) => record.info.running,
                None => false,
            },
    {
        match self.sessions.get(session_id) {
            Some(record) => record.running,
            None => false,
        }
    }

    /// The exit code of a session's child; nothing where there is no such session.
    pub fn exit_code(&self, session_id: &str) -> (code: Option<i32>)
        ensures
            code == match table::lookup(self.sessions@, session_id@) {
                Some(record) => Some(record.exit_code),
                None => None,
            },
    {
        match self.sessions.get(session_id) {
            Some(record) => Some(record.exit_code),
            None => None,
        }
    }

    /// The agent's own id of a session.
    pub fn external_session_id(&self, session_id: &str) -> (id: Option<String>)
        ensures
            model::opt_text(id) == match table::lookup(self.sessions@, session_id@) {
                Some(record) => record.info.session_id,
                None => None,
            },
    {
        match self.sessions.get(session_id) {
            Some(record) => copy_text(&record.external_session_id),
            None => None,
        }
    }

    /// Drops a session, and says whether it was there.
    pub fn close(&mut self, session_id: &str) -> (closed: bool)
        ensures
            closed == old(self).sessions@.contains_key(session_id@),
            final(self).sessions@ == old(self).sessions@.remove(session_id@),
            final(self).next_order == old(self).next_order,
    {
        self.sessions.remove(session_id).is_some()
    }
}

/// Whether every session was created before the next one.
pub open spec fn orders_count_up(sessions: Map<Seq<char>, RecordView>, next: u64) -> bool {
    forall|id: Seq<char>| #[trigger] sessions.contains_key(id) ==> sessions[id].order < next
}

/// A session that is opened for a task is its latest one, and sessions go on being
/// numbered in the order of their creation.
pub proof fn law_opened_session_is_the_latest(
    sessions: Map<Seq<char>, RecordView>,
    next: u64,
    new: NewSession,
    task_id: Seq<char>,
)
    requires
        orders_count_up(sessions, next),
        next < u64::MAX,
        model::opt_text(new.task_id) == Some(task_id),
    ensures
        latest(sessions.insert(new.id@, opened(new, next)), task_id, new.id@),
        orders_count_up(sessions.insert(new.id@, opened(new, next)), (next + 1) as u64),
        forall|id: Seq<char>|
            latest(sessions.insert(new.id@, opened(new, next)), task_id, id) ==> id == new.id@,
{
    let later = sessions.insert(new.id@, opened(new, next));
    assert forall|other: Seq<char>| #[trigger] later.contains_key(other) implies later[other].order
        <= next by {
        if other != new.id@ {
            assert(sessions.contains_key(other));
        }
    }
    assert forall|id: Seq<char>| latest(later, task_id, id) implies id == new.id@ by {
        assert(later.contains_key(new.id@));
        if id != new.id@ {
            assert(sessions.contains_key(id));
        }
    }
}

} // verus!
