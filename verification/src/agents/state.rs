//! The live state of an agent session, folded from its events.
use crate::model;
use crate::model::{copy_text, AgentStateEvent, AgentUsage, EventView, InputRequest, InputRequestView};
use crate::table::Table;
use crate::text;
use crate::text::str_eq;
use vstd::prelude::*;

verus! {

/// A resolved launch, from which an agent chooses how its state is observed.
#[derive(Debug)]
pub struct StateSourceConfig {
    /// Whether the run is unattended.
    pub headless: bool,
    /// Whether its session was created on a server that this daemon runs.
    pub managed_session: bool,
    pub program: String,
    pub args: Vec<String>,
    pub env: Table<String>,
    pub cwd: Option<String>,
    /// Whether the daemon receives hooks.
    pub hook_router: bool,
}

/// A launch that says nothing.
impl Default for StateSourceConfig {
    fn default() -> (cfg: StateSourceConfig)
        ensures
            !cfg.headless,
            !cfg.managed_session,
            cfg.program@ == Seq::<char>::empty(),
            cfg.args@ == Seq::<String>::empty(),
            cfg.env@ == Map::<Seq<char>, Seq<char>>::empty(),
            cfg.cwd is None,
            !cfg.hook_router,
    {
        StateSourceConfig {
            headless: false,
            managed_session: false,
            program: String::new(),
            args: Vec::new(),
            env: Table::new(),
            cwd: None,
            hook_router: false,
        }
    }
}

/// Whether `first` and `second` stand next to each other in `args`.
pub open spec fn has_pair(args: Seq<Seq<char>>, first: Seq<char>, second: Seq<char>) -> bool {
    exists|i: int| 0 <= i < args.len() - 1 && #[trigger] args[i] == first && args[i + 1] == second
}

/// Whether `first` and `second` stand next to each other in `args`.
pub fn find_pair(args: &Vec<String>, first: &str, second: &str) -> (found: bool)
    ensures
        found == has_pair(text::views(args@), first@, second@),
{
    let ghost all = text::views(args@);
    let mut i: usize = 0;
    while args.len() - i > 1
        invariant
            i <= args.len(),
            all == text::views(args@),
            forall|k: int|
                0 <= k < i ==> !(#[trigger] all[k] == first@ && all[k + 1] == second@),
        decreases args.len() - i,
    {
        assert(all[i as int] == args@[i as int]@ && all[i + 1] == args@[i + 1]@);
        if str_eq(args[i].as_str(), first) && str_eq(args[i + 1].as_str(), second) {
            return true;
        }
        i += 1;
    }
    false
}

/// An answer to an agent's question.
#[derive(Debug, PartialEq, Eq)]
pub enum InputReply {
    Once,
    Always,
    Reject,
    Value { value: String },
    Confirmed { confirmed: bool },
    Cancelled,
}

/// What a session is doing.
#[derive(Debug, PartialEq, Eq)]
pub enum AgentActivity {
    Starting,
    Thinking,
    Responding,
    Tool { name: String, description: Option<String> },
    Waiting { request: InputRequest },
    Idle,
}

/// [`AgentActivity`] over mathematical text.
pub enum ActivityView {
    Starting,
    Thinking,
    Responding,
    Tool { name: Seq<char>, description: Option<Seq<char>> },
    Waiting { request: InputRequestView },
    Idle,
}

impl View for AgentActivity {
    type V = ActivityView;

    open spec fn view(&self) -> ActivityView {
        match *self {
            AgentActivity::Starting => ActivityView::Starting,
            AgentActivity::Thinking => ActivityView::Thinking,
            AgentActivity::Responding => ActivityView::Responding,
            AgentActivity::Tool { name, description } => ActivityView::Tool {
                name: name@,
                description: model::opt_text(description),
            },
            AgentActivity::Waiting { request } => ActivityView::Waiting { request: request@ },
            AgentActivity::Idle => ActivityView::Idle,
        }
    }
}

impl Clone for AgentActivity {
    fn clone(&self) -> (copy: AgentActivity)
        ensures
            copy@ == self@,
    {
        match self {
            AgentActivity::Starting => AgentActivity::Starting,
            AgentActivity::Thinking => AgentActivity::Thinking,
            AgentActivity::Responding => AgentActivity::Responding,
            AgentActivity::Tool { name, description } => AgentActivity::Tool {
                name: name.clone(),
                description: copy_text(description),
            },
            AgentActivity::Waiting { request } => AgentActivity::Waiting {
                request: request.clone(),
            },
            AgentActivity::Idle => AgentActivity::Idle,
        }
    }
}

/// The folded live snapshot of a session: what it does and what it cost.
#[derive(Debug, PartialEq, Eq)]
pub struct AgentLiveState {
    pub activity: Option<AgentActivity>,
    pub usage: Option<AgentUsage>,
}

/// [`AgentLiveState`] over mathematical text.
pub struct LiveView {
    pub activity: Option<ActivityView>,
    pub usage: Option<AgentUsage>,
}

impl View for AgentLiveState {
    type V = LiveView;

    open spec fn view(&self) -> LiveView {
        LiveView {
            activity: match self.activity {
                Some(activity) => Some(activity@),
                None => None,
            },
            usage: self.usage,
        }
    }
}

/// The activity that an event reveals; nothing where it reveals none.
pub open spec fn activity_of(event: EventView) -> Option<ActivityView> {
    match event {
        EventView::TurnStarted => Some(ActivityView::Thinking),
        EventView::ReasoningDelta { .. } => Some(ActivityView::Thinking),
        EventView::TextDelta { .. } => Some(ActivityView::Responding),
        EventView::ToolStarted { name, .. } => Some(ActivityView::Tool { name, description: None }),
        EventView::ToolFinished { .. } => Some(ActivityView::Thinking),
        EventView::InputRequested { request } => Some(ActivityView::Waiting { request }),
        EventView::InputResolved { .. } => Some(ActivityView::Idle),
        EventView::Idle { .. } => Some(ActivityView::Idle),
        _ => None,
    }
}

impl LiveView {
    /// The snapshot after one more event.
    pub open spec fn applied(self, event: EventView) -> LiveView {
        LiveView {
            activity: crate::json::first_of(activity_of(event), self.activity),
            usage: match event {
                EventView::Usage { usage } => Some(
                    match self.usage {
                        Some(known) => known,
                        None => model::no_usage(),
                    }.merged(usage),
                ),
                _ => self.usage,
            },
        }
    }

    /// The snapshot after several more events.
    pub open spec fn folded(self, events: Seq<EventView>) -> LiveView
        decreases events.len(),
    {
        if events.len() == 0 {
            self
        } else {
            self.folded(events.drop_last()).applied(events.last())
        }
    }
}

impl Clone for AgentLiveState {
    fn clone(&self) -> (copy: AgentLiveState)
        ensures
            copy@ == self@,
    {
        AgentLiveState {
            activity: match &self.activity {
                Some(activity) => Some(activity.clone()),
                None => None,
            },
            usage: match &self.usage {
                Some(usage) => Some(usage.clone()),
                None => None,
            },
        }
    }
}

impl Default for AgentLiveState {
    fn default() -> (state: AgentLiveState)
        ensures
            state@ == (LiveView { activity: None, usage: None }),
    {
        AgentLiveState { activity: None, usage: None }
    }
}

impl AgentLiveState {
    /// Folds one event into the snapshot.
    pub fn apply(&mut self, event: &AgentStateEvent)
        ensures
            final(self)@ == old(self)@.applied(event@),
    {
        match event {
            AgentStateEvent::TurnStarted => {
                self.activity = Some(AgentActivity::Thinking);
            },
            AgentStateEvent::ReasoningDelta { .. } => {
                self.activity = Some(AgentActivity::Thinking);
            },
            AgentStateEvent::TextDelta { .. } => {
                self.activity = Some(AgentActivity::Responding);
            },
            AgentStateEvent::ToolStarted { name, .. } => {
                self.activity = Some(AgentActivity::Tool { name: name.clone(), description: None });
            },
            AgentStateEvent::ToolFinished { .. } => {
                self.activity = Some(AgentActivity::Thinking);
            },
            AgentStateEvent::InputRequested { request } => {
                self.activity = Some(AgentActivity::Waiting { request: request.clone() });
            },
            AgentStateEvent::InputResolved { .. } => {
                self.activity = Some(AgentActivity::Idle);
            },
            AgentStateEvent::Idle { .. } => {
                self.activity = Some(AgentActivity::Idle);
            },
            AgentStateEvent::Usage { usage } => {
                let mut known = match self.usage.take() {
                    Some(known) => known,
                    None => AgentUsage::default(),
                };
                known.merge(usage);
                self.usage = Some(known);
            },
            // A partial update or an error does not change the coarse activity.
            _ => {},
        }
    }
}

/// The live usage of a session is the sum of its usage events.
pub proof fn law_live_usage_adds_up(events: Seq<EventView>)
    ensures
        ({
            let live = (LiveView { activity: None, usage: None }).folded(events);
            match live.usage {
                Some(usage) => usage == model::usage_told(events),
                None => model::usage_told(events) == model::no_usage(),
            }
        }),
    decreases events.len(),
{
    if events.len() > 0 {
        law_live_usage_adds_up(events.drop_last());
    }
}

/// The live activity is that of the last event which reveals one.
pub proof fn law_live_activity_is_the_last(before: LiveView, event: EventView, rest: Seq<EventView>)
    requires
        activity_of(event) is Some,
        forall|i: int| 0 <= i < rest.len() ==> activity_of(#[trigger] rest[i]) is None,
    ensures
        before.applied(event).folded(rest).activity == activity_of(event),
    decreases rest.len(),
{
    if rest.len() > 0 {
        assert forall|i: int| 0 <= i < rest.drop_last().len() implies activity_of(
            #[trigger] rest.drop_last()[i],
        ) is None by {
            assert(rest.drop_last()[i] == rest[i]);
        }
        law_live_activity_is_the_last(before, event, rest.drop_last());
        assert(activity_of(rest[rest.len() - 1]) is None);
    }
}

} // verus!
