//! The receiver of hooks: one route per launch, under a token that only the
//! launch was given.
//!
//! The receiver observes: it never returns a permission decision. A payload under
//! an unknown token is refused, so that a guessed address tells nothing.
use crate::json;
use crate::json::{parse_bytes, Json, JsonView};
use crate::model;
use crate::model::{AgentStateEvent, EventView};
use crate::table::Table;
use vstd::prelude::*;

verus! {

/// Where a launch posts its hooks, and where its settings file is written.
#[derive(Debug, PartialEq, Eq)]
pub struct AgentHookLaunch {
    /// The address without the token, on the loopback.
    pub endpoint: String,
    pub dir: String,
}

/// What a launch is given so that it reports over hooks.
#[derive(Debug)]
pub struct HookInjection {
    /// Arguments that stand before those of the launch.
    pub args: Vec<String>,
    /// Variables that join those of the launch.
    pub env: Table<String>,
}

impl Default for HookInjection {
    fn default() -> (injection: HookInjection)
        ensures
            injection.args@ == Seq::<String>::empty(),
            injection.env@ == Map::<Seq<char>, Seq<char>>::empty(),
    {
        HookInjection { args: Vec::new(), env: Table::new() }
    }
}

/// Why a payload was not delivered.
#[derive(Debug, PartialEq, Eq)]
pub enum HookRouteError {
    /// The daemon receives no hooks.
    Disabled,
    /// No session has this token.
    UnknownToken,
    /// The body is no JSON; with what the parser said.
    BadRequest(String),
}

impl HookRouteError {
    /// The error in words.
    pub fn message(&self) -> (message: String)
        ensures
            message@ == match *self {
                HookRouteError::Disabled => "agent hooks are disabled"@,
                HookRouteError::UnknownToken => "unknown agent hook token"@,
                HookRouteError::BadRequest(reason) => "invalid agent hook payload: "@ + reason@,
            },
    {
        match self {
            HookRouteError::Disabled => "agent hooks are disabled".to_owned(),
            HookRouteError::UnknownToken => "unknown agent hook token".to_owned(),
            HookRouteError::BadRequest(reason) => "invalid agent hook payload: ".to_owned().concat(
                reason.as_str(),
            ),
        }
    }
}

/// What a mapper tells, over mathematical values.
pub type Told = Seq<EventView>;

/// Turns the payloads of one session into events.
pub trait HookMap: Sized {
    /// Whether one more payload can be taken.
    spec fn ready(&self) -> bool;

    /// Whether one more payload can be taken.
    fn is_ready(&self) -> (ready: bool)
        ensures
            ready == self.ready(),
    ;

    /// What a payload makes of a mapper, and what it tells.
    spec fn maps(before: Self, payload: JsonView, after: Self, told: Told) -> bool;

    /// What one payload tells.
    fn map(&mut self, payload: &Json) -> (events: Vec<AgentStateEvent>)
        requires
            old(self).ready(),
        ensures
            Self::maps(*old(self), payload@, *final(self), model::event_views(events@)),
    ;
}

/// One registered session: its mapper, and what waits to be sent to it.
#[derive(Debug)]
pub struct HookEntry<M> {
    pub map: M,
    pub outbox: Vec<AgentStateEvent>,
}

/// [`HookEntry`] over mathematical values.
pub struct EntryView<M> {
    pub map: M,
    pub outbox: Seq<EventView>,
}

impl<M> View for HookEntry<M> {
    type V = EntryView<M>;

    open spec fn view(&self) -> EntryView<M> {
        EntryView { map: self.map, outbox: model::event_views(self.outbox@) }
    }
}

/// Takes each payload to the session whose token it came under.
#[derive(Debug)]
pub struct HookRouter<M> {
    entries: Table<HookEntry<M>>,
}

impl<M> View for HookRouter<M> {
    type V = Map<Seq<char>, EntryView<M>>;

    closed spec fn view(&self) -> Map<Seq<char>, EntryView<M>> {
        self.entries@
    }
}

impl<M: HookMap> HookRouter<M> {
    /// A router without sessions.
    pub fn new() -> (router: HookRouter<M>)
        ensures
            router@ == Map::<Seq<char>, EntryView<M>>::empty(),
    {
        HookRouter { entries: Table::new() }
    }

    /// Registers a session under its token.
    pub fn register(&mut self, token: String, map: M)
        ensures
            final(self)@ == old(self)@.insert(
                token@,
                EntryView { map, outbox: Seq::empty() },
            ),
    {
        let entry = HookEntry { map, outbox: Vec::new() };
        assert(entry@.outbox == Seq::<EventView>::empty());
        self.entries.insert(token, entry);
    }

    /// Forgets the session with this token: its transport has stopped.
    pub fn deregister(&mut self, token: &str)
        ensures
            final(self)@ == old(self)@.remove(token@),
    {
        let _ = self.entries.remove(token);
    }

    /// Whether the session with this token, where there is one, can take one more
    /// payload.
    pub fn is_ready(&self, token: &str) -> (ready: bool)
        ensures
            ready == (self@.contains_key(token@) ==> self@[token@].map.ready()),
    {
        match self.entries.get(token) {
            Some(entry) => entry.map.is_ready(),
            None => true,
        }
    }

    /// Delivers one raw body to the session with this token, and returns how many
    /// events it told. A body that is no JSON is refused before its token is looked
    /// up.
    pub fn route(&mut self, token: &str, body: &[u8]) -> (count: Result<usize, HookRouteError>)
        requires
            old(self)@.contains_key(token@) ==> old(self)@[token@].map.ready(),
        ensures
            match json::parsed_bytes(body@) {
                Err(reason) => {
                    &&& count is Err && count->Err_0 is BadRequest
                    &&& count->Err_0->BadRequest_0@ == reason
                    &&& final(self)@ == old(self)@
                },
                Ok(payload) => if old(self)@.contains_key(token@) {
                    count is Ok && received(
                        old(self)@,
                        token@,
                        payload,
                        final(self)@,
                        count->Ok_0 as nat,
                    )
                } else {
                    &&& count == Err::<usize, HookRouteError>(HookRouteError::UnknownToken)
                    &&& final(self)@ == old(self)@
                },
            },
    {
        match parse_bytes(body) {
            Err(reason) => Err(HookRouteError::BadRequest(reason)),
            Ok(payload) => self.deliver(token, &payload),
        }
    }

    /// Delivers one payload to the session with this token, and returns how many
    /// events it told.
    pub fn deliver(&mut self, token: &str, payload: &Json) -> (count: Result<
        usize,
        HookRouteError,
    >)
        requires
            old(self)@.contains_key(token@) ==> old(self)@[token@].map.ready(),
        ensures
            if old(self)@.contains_key(token@) {
                count is Ok && received(
                    old(self)@,
                    token@,
                    payload@,
                    final(self)@,
                    count->Ok_0 as nat,
                )
            } else {
                &&& count == Err::<usize, HookRouteError>(HookRouteError::UnknownToken)
                &&& final(self)@ == old(self)@
            },
    {
        let ghost before = self@;
        match self.entries.remove(token) {
            None => {
                assert(self@ =~= before);
                Err(HookRouteError::UnknownToken)
            },
            Some(entry) => {
                let HookEntry { map: mut map, outbox: mut outbox } = entry;
                let ghost waiting = model::event_views(outbox@);
                let mut events = map.map(payload);
                let count: usize = events.len();
                let ghost told = model::event_views(events@);
                outbox.append(&mut events);
                assert(model::event_views(outbox@) == waiting + told);
                self.entries.insert(token.to_owned(), HookEntry { map, outbox });
                assert(self@ =~= before.insert(
                    token@,
                    EntryView { map, outbox: waiting + told },
                ));
                assert(delivered(before, token@, payload@, self@, map, told));
                Ok(count)
            },
        }
    }

    /// Takes out what waits to be sent to the session with this token.
    pub fn take_events(&mut self, token: &str) -> (events: Vec<AgentStateEvent>)
        ensures
            if old(self)@.contains_key(token@) {
                &&& model::event_views(events@) == old(self)@[token@].outbox
                &&& final(self)@ == old(self)@.insert(
                    token@,
                    EntryView { map: old(self)@[token@].map, outbox: Seq::empty() },
                )
            } else {
                &&& events@.len() == 0
                &&& final(self)@ == old(self)@
            },
    {
        let ghost before = self@;
        match self.entries.remove(token) {
            None => {
                assert(self@ =~= before);
                Vec::new()
            },
            Some(entry) => {
                let outbox: Vec<AgentStateEvent> = Vec::new();
                assert(model::event_views(outbox@) == Seq::<EventView>::empty());
                self.entries.insert(token.to_owned(), HookEntry { map: entry.map, outbox });
                assert(self@ =~= before.insert(
                    token@,
                    EntryView { map: entry.map, outbox: Seq::empty() },
                ));
                entry.outbox
            },
        }
    }
}

/// A payload went to the session with this token, which told `told` of it; no
/// other session saw it.
pub open spec fn delivered<M: HookMap>(
    before: Map<Seq<char>, EntryView<M>>,
    token: Seq<char>,
    payload: JsonView,
    later: Map<Seq<char>, EntryView<M>>,
    after: M,
    told: Seq<EventView>,
) -> bool {
    &&& M::maps(before[token].map, payload, after, told)
    &&& later == before.insert(
        token,
        EntryView { map: after, outbox: before[token].outbox + told },
    )
}

/// A payload went to the session with this token, which told `count` events of it.
pub open spec fn received<M: HookMap>(
    before: Map<Seq<char>, EntryView<M>>,
    token: Seq<char>,
    payload: JsonView,
    later: Map<Seq<char>, EntryView<M>>,
    count: nat,
) -> bool {
    exists|after: M, told: Seq<EventView>|
        #[trigger] delivered(before, token, payload, later, after, told) && told.len() == count
}

/// How the daemon answers a delivery: the status of the response, and its body.
/// It never decides on a permission.
pub fn hook_response(outcome: &Result<usize, HookRouteError>) -> (response: (u16, String))
    ensures
        match *outcome {
            Ok(_) => response.0 == 200 && response.1@ == "{}"@,
            Err(HookRouteError::BadRequest(reason)) => response.0 == 400 && response.1@ == reason@,
            Err(_) => response.0 == 404 && response.1@ == "unknown agent hook token"@,
        },
{
    match outcome {
        Ok(_) => (200, "{}".to_owned()),
        Err(HookRouteError::BadRequest(reason)) => (400, reason.clone()),
        Err(_) => (404, "unknown agent hook token".to_owned()),
    }
}

/// Once a session has been forgotten, its token is unknown.
pub proof fn law_forgotten_token_is_unknown<M: HookMap>(
    before: Map<Seq<char>, EntryView<M>>,
    token: Seq<char>,
)
    ensures
        !before.remove(token).contains_key(token),
        forall|other: Seq<char>|
            other != token && before.contains_key(other) ==> {
                &&& #[trigger] before.remove(token).contains_key(other)
                &&& before.remove(token)[other] == before[other]
            },
{
}

/// A delivery reaches no session but the one with its token.
pub proof fn law_delivery_is_private<M: HookMap>(
    before: Map<Seq<char>, EntryView<M>>,
    token: Seq<char>,
    payload: JsonView,
    later: Map<Seq<char>, EntryView<M>>,
    after: M,
    told: Seq<EventView>,
    other: Seq<char>,
)
    requires
        delivered(before, token, payload, later, after, told),
        other != token,
    ensures
        later.contains_key(other) == before.contains_key(other),
        later.contains_key(other) ==> later[other] == before[other],
{
}

} // verus!
