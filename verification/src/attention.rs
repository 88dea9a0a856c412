//! Watching a session, and showing on its task when it is blocked on its user.
//!
//! The screen is looked at twice a second. A single look neither raises the signal
//! nor clears it.
use crate::model;
use crate::model::{AwaitingInputReason, ReasonView};
use vstd::prelude::*;

verus! {

/// The pause between two looks at a screen, in milliseconds.
pub const POLL_INTERVAL: u64 = 500;

/// The pause between two questions whether a turn is done, in milliseconds.
pub const TURN_PROBE_INTERVAL: u64 = 3000;

/// How long such a question may take, in milliseconds.
pub const TURN_PROBE_TIMEOUT: u64 = 15000;

/// How many looks in a row have to show a prompt before it counts.
pub const MARK_STREAK: u32 = 2;

/// How many looks in a row have to show none before it no longer counts.
pub const CLEAR_STREAK: u32 = 3;

/// A change of the signal.
#[derive(Debug, PartialEq, Eq)]
pub enum Edge {
    /// The session waits for its user.
    Mark(AwaitingInputReason),
    /// It goes on.
    Clear,
}

/// [`Edge`] over mathematical text.
pub enum EdgeView {
    Mark(ReasonView),
    Clear,
}

/// An optional change over mathematical text.
pub open spec fn opt_edge(edge: Option<Edge>) -> Option<EdgeView> {
    match edge {
        Some(Edge::Mark(reason)) => Some(EdgeView::Mark(reason@)),
        Some(Edge::Clear) => Some(EdgeView::Clear),
        None => None,
    }
}

/// What a debouncer remembers.
pub struct Debounced {
    pub confirmed: Option<ReasonView>,
    pub match_streak: u32,
    pub clear_streak: u32,
}

impl Debounced {
    /// A debouncer that has seen nothing.
    pub open spec fn fresh() -> Debounced {
        Debounced { confirmed: None, match_streak: 0, clear_streak: 0 }
    }

    /// Whether no streak is complete: a complete one changes the signal at once.
    pub open spec fn wf(self) -> bool {
        &&& self.match_streak < MARK_STREAK
        &&& self.clear_streak < CLEAR_STREAK
        &&& self.confirmed is Some ==> self.match_streak == 0
        &&& self.confirmed is None ==> self.clear_streak == 0
    }

    /// The debouncer after one more look.
    pub open spec fn looked(self, next: Option<ReasonView>) -> Debounced {
        match (next, self.confirmed) {
            (Some(reason), Some(_)) => Debounced {
                confirmed: Some(reason),
                match_streak: 0,
                clear_streak: 0,
            },
            (Some(reason), None) => if self.match_streak + 1 >= MARK_STREAK {
                Debounced { confirmed: Some(reason), match_streak: 0, clear_streak: 0 }
            } else {
                Debounced {
                    confirmed: None,
                    match_streak: (self.match_streak + 1) as u32,
                    clear_streak: 0,
                }
            },
            (None, None) => Debounced { match_streak: 0, ..self },
            (None, Some(_)) => if self.clear_streak + 1 >= CLEAR_STREAK {
                Debounced::fresh()
            } else {
                Debounced {
                    match_streak: 0,
                    clear_streak: (self.clear_streak + 1) as u32,
                    ..self
                }
            },
        }
    }

    /// The change that one more look brings.
    pub open spec fn edge(self, next: Option<ReasonView>) -> Option<EdgeView> {
        match (next, self.confirmed) {
            (Some(reason), None) => if self.match_streak + 1 >= MARK_STREAK {
                Some(EdgeView::Mark(reason))
            } else {
                None
            },
            (None, Some(_)) => if self.clear_streak + 1 >= CLEAR_STREAK {
                Some(EdgeView::Clear)
            } else {
                None
            },
            _ => None,
        }
    }
}

/// Steadies what single looks at a screen show.
#[derive(Debug, PartialEq, Eq)]
pub struct Debouncer {
    confirmed: Option<AwaitingInputReason>,
    match_streak: u32,
    clear_streak: u32,
}

impl View for Debouncer {
    type V = Debounced;

    closed spec fn view(&self) -> Debounced {
        Debounced {
            confirmed: model::opt_reason(self.confirmed),
            match_streak: self.match_streak,
            clear_streak: self.clear_streak,
        }
    }
}

impl Default for Debouncer {
    fn default() -> (debouncer: Debouncer)
        ensures
            debouncer@ == Debounced::fresh(),
            debouncer@.wf(),
    {
        Debouncer { confirmed: None, match_streak: 0, clear_streak: 0 }
    }
}

/// A copy of an optional reason.
pub fn copy_reason(reason: &Option<AwaitingInputReason>) -> (copy: Option<AwaitingInputReason>)
    ensures
        model::opt_reason(copy) == model::opt_reason(*reason),
{
    match reason {
        Some(reason) => Some(reason.clone()),
        None => None,
    }
}

impl Debouncer {
    /// Why the session waits, as far as that is certain.
    pub fn confirmed(&self) -> (reason: &Option<AwaitingInputReason>)
        ensures
            model::opt_reason(*reason) == self@.confirmed,
    {
        &self.confirmed
    }

    /// Takes what one look shows, and returns the change that it brings. Another
    /// reason while the session waits takes the place of the first; it is no change.
    pub fn observe(&mut self, next: Option<AwaitingInputReason>) -> (edge: Option<Edge>)
        requires
            old(self)@.wf(),
        ensures
            final(self)@.wf(),
            final(self)@ == old(self)@.looked(model::opt_reason(next)),
            opt_edge(edge) == old(self)@.edge(model::opt_reason(next)),
    {
        match next {
            Some(reason) => {
                self.clear_streak = 0;
                if self.confirmed.is_some() {
                    self.match_streak = 0;
                    self.confirmed = Some(reason);
                    return None;
                }
                self.match_streak = self.match_streak + 1;
                if self.match_streak >= MARK_STREAK {
                    self.match_streak = 0;
                    self.confirmed = Some(reason.clone());
                    return Some(Edge::Mark(reason));
                }
                None
            },
            None => {
                self.match_streak = 0;
                if self.confirmed.is_none() {
                    return None;
                }
                self.clear_streak = self.clear_streak + 1;
                if self.clear_streak >= CLEAR_STREAK {
                    self.clear_streak = 0;
                    self.confirmed = None;
                    return Some(Edge::Clear);
                }
                None
            },
        }
    }
}

/// A debouncer after several looks.
pub open spec fn looked_all(start: Debounced, looks: Seq<Option<ReasonView>>) -> Debounced
    decreases looks.len(),
{
    if looks.len() == 0 {
        start
    } else {
        looked_all(start, looks.drop_last()).looked(looks.last())
    }
}

/// Every look leaves the debouncer in order.
pub proof fn law_streaks_stay_short(start: Debounced, looks: Seq<Option<ReasonView>>)
    requires
        start.wf(),
    ensures
        looked_all(start, looks).wf(),
    decreases looks.len(),
{
    if looks.len() > 0 {
        law_streaks_stay_short(start, looks.drop_last());
    }
}

/// The signal changes just when an edge is returned: `Mark` raises it, `Clear` lowers
/// it, and neither comes twice in a row.
pub proof fn law_edges_follow_the_signal(s: Debounced, next: Option<ReasonView>)
    requires
        s.wf(),
    ensures
        s.edge(next) is Some && s.edge(next)->0 is Mark <==> s.confirmed is None && s.looked(
            next,
        ).confirmed is Some,
        s.edge(next) is Some && s.edge(next)->0 is Clear <==> s.confirmed is Some && s.looked(
            next,
        ).confirmed is None,
{
}

/// A prompt that shows in a single look is not raised.
pub proof fn law_one_look_raises_nothing(s: Debounced, reason: ReasonView)
    requires
        s.wf(),
        s.confirmed is None,
        s.match_streak == 0,
    ensures
        s.edge(Some(reason)) is None,
        s.looked(Some(reason)).edge(None) is None,
        s.looked(Some(reason)).looked(None) == s,
{
}

/// A prompt that is gone in one or two looks is not cleared.
pub proof fn law_short_gap_clears_nothing(s: Debounced, reason: ReasonView)
    requires
        s.wf(),
        s.confirmed is Some,
        s.clear_streak == 0,
    ensures
        s.edge(None) is None,
        s.looked(None).edge(None) is None,
        s.looked(None).looked(None).edge(Some(reason)) is None,
        s.looked(None).looked(None).looked(Some(reason)).confirmed == Some(reason),
        s.looked(None).looked(None).edge(None) == Some(EdgeView::Clear),
{
}

/// How a watched run ended.
#[derive(Debug, Clone, Copy, PartialEq, Eq, Structural)]
pub enum WatchEnd {
    /// The child exited, or vanished, with this code.
    Exited(Option<i32>),
    /// The agent finished its turn; its child runs on.
    TurnFinished { success: bool },
}

impl WatchEnd {
    /// The exit code that a session without turns ends with.
    pub fn exit_code(&self) -> (code: Option<i32>)
        ensures
            code == match *self {
                WatchEnd::Exited(code) => code,
                WatchEnd::TurnFinished { .. } => Some(0i32),
            },
    {
        match self {
            WatchEnd::Exited(code) => *code,
            WatchEnd::TurnFinished { .. } => Some(0),
        }
    }
}

/// The states of a task that a watcher moves between, and all the others.
#[derive(Debug, Clone, Copy, PartialEq, Eq, Structural)]
pub enum TaskStatus {
    Running,
    AwaitingInput,
    Elsewhere,
}

/// The state that a task is moved to, and the one that it has to be in.
pub open spec fn transition(awaiting: bool) -> (TaskStatus, TaskStatus) {
    if awaiting {
        (TaskStatus::AwaitingInput, TaskStatus::Running)
    } else {
        (TaskStatus::Running, TaskStatus::AwaitingInput)
    }
}

/// The state that a task is moved to, and the one that it has to be in: a task that
/// another writer has moved on stays where it is.
pub fn reconcile_task(awaiting: bool) -> (change: (TaskStatus, TaskStatus))
    ensures
        change == transition(awaiting),
{
    if awaiting {
        (TaskStatus::AwaitingInput, TaskStatus::Running)
    } else {
        (TaskStatus::Running, TaskStatus::AwaitingInput)
    }
}

/// The state of a task once the signal has been written to it.
pub open spec fn reconciled(status: TaskStatus, awaiting: bool) -> TaskStatus {
    let (to, from) = transition(awaiting);
    if status == from {
        to
    } else {
        status
    }
}

/// Writing the signal again changes nothing; a task that is elsewhere is never moved;
/// and one that waits or runs shows the signal.
pub proof fn law_reconciling_is_stable(status: TaskStatus, awaiting: bool)
    ensures
        reconciled(reconciled(status, awaiting), awaiting) == reconciled(status, awaiting),
        reconciled(TaskStatus::Elsewhere, awaiting) == TaskStatus::Elsewhere,
        status != TaskStatus::Elsewhere ==> reconciled(status, awaiting) == if awaiting {
            TaskStatus::AwaitingInput
        } else {
            TaskStatus::Running
        },
{
}

/// What a watcher does after a look.
#[derive(Debug, PartialEq, Eq)]
pub enum WatchAction {
    /// Move the task to waiting, and announce why.
    Mark(AwaitingInputReason),
    /// Move the task back to running.
    Resume,
    /// Show why the session waits, or that it does not.
    Show(Option<AwaitingInputReason>),
    /// Write the signal to the task again, in case it was overwritten.
    Reassert { awaiting: bool },
}

/// [`WatchAction`] over mathematical text.
pub enum ActionView {
    Mark(ReasonView),
    Resume,
    Show(Option<ReasonView>),
    Reassert { awaiting: bool },
}

impl View for WatchAction {
    type V = ActionView;

    open spec fn view(&self) -> ActionView {
        match *self {
            WatchAction::Mark(reason) => ActionView::Mark(reason@),
            WatchAction::Resume => ActionView::Resume,
            WatchAction::Show(reason) => ActionView::Show(model::opt_reason(reason)),
            WatchAction::Reassert { awaiting } => ActionView::Reassert { awaiting },
        }
    }
}

pub open spec fn action_views(actions: Seq<WatchAction>) -> Seq<ActionView> {
    actions.map_values(|a: WatchAction| a@)
}

fn push_action(actions: &mut Vec<WatchAction>, action: WatchAction)
    ensures
        action_views(final(actions)@) == action_views(old(actions)@).push(action@),
{
    let ghost before = actions@;
    actions.push(action);
    assert(action_views(actions@) == action_views(before).push(action@));
}

/// What is done after a look: the change goes to the task, the session shows why it
/// waits, and the task is reminded of it.
pub open spec fn after_look(
    s: Debounced,
    next: Option<ReasonView>,
    has_task: bool,
) -> Seq<ActionView> {
    let later = s.looked(next);
    (match s.edge(next) {
        Some(EdgeView::Mark(reason)) if has_task => seq![ActionView::Mark(reason)],
        Some(EdgeView::Clear) if has_task => seq![ActionView::Resume],
        _ => Seq::empty(),
    }) + seq![ActionView::Show(later.confirmed)] + (if has_task {
        seq![ActionView::Reassert { awaiting: later.confirmed is Some }]
    } else {
        Seq::empty()
    })
}

/// Takes what one look shows, and returns what is to be done.
pub fn poll(debouncer: &mut Debouncer, next: Option<AwaitingInputReason>, has_task: bool) -> (actions:
    Vec<WatchAction>)
    requires
        old(debouncer)@.wf(),
    ensures
        final(debouncer)@.wf(),
        final(debouncer)@ == old(debouncer)@.looked(model::opt_reason(next)),
        action_views(actions@) == after_look(old(debouncer)@, model::opt_reason(next), has_task),
{
    let ghost goal = after_look(debouncer@, model::opt_reason(next), has_task);
    let mut actions: Vec<WatchAction> = Vec::new();
    assert(action_views(actions@) == Seq::<ActionView>::empty());
    let edge = debouncer.observe(next);
    if has_task {
        match edge {
            Some(Edge::Mark(reason)) => {
                push_action(&mut actions, WatchAction::Mark(reason));
            },
            Some(Edge::Clear) => {
                push_action(&mut actions, WatchAction::Resume);
            },
            None => {},
        }
    }
    push_action(&mut actions, WatchAction::Show(copy_reason(debouncer.confirmed())));
    if has_task {
        let awaiting = debouncer.confirmed().is_some();
        push_action(&mut actions, WatchAction::Reassert { awaiting });
    }
    assert(action_views(actions@) == goal);
    actions
}

/// Whether it is time to ask whether a turn is done.
pub fn probe_due(has_turns: bool, since_last_ms: u64) -> (due: bool)
    ensures
        due == (has_turns && since_last_ms >= TURN_PROBE_INTERVAL),
{
    has_turns && since_last_ms >= TURN_PROBE_INTERVAL
}

/// How a watched run ended, from the answer to such a question where one ended it,
/// and the exit code of the child.
pub fn watch_end(finished: Option<bool>, exit_code: Option<i32>) -> (end: WatchEnd)
    ensures
        end == match finished {
            Some(success) => WatchEnd::TurnFinished { success },
            None => WatchEnd::Exited(exit_code),
        },
{
    match finished {
        Some(success) => WatchEnd::TurnFinished { success },
        None => WatchEnd::Exited(exit_code),
    }
}

/// What is done when a run has ended: the session no longer waits, and its task goes
/// back to running, for its end to be written.
pub fn finish(has_task: bool) -> (actions: Vec<WatchAction>)
    ensures
        action_views(actions@) == seq![ActionView::Show(None)] + (if has_task {
            seq![ActionView::Resume]
        } else {
            Seq::empty()
        }),
{
    let mut actions: Vec<WatchAction> = Vec::new();
    assert(action_views(actions@) == Seq::<ActionView>::empty());
    push_action(&mut actions, WatchAction::Show(None));
    if has_task {
        push_action(&mut actions, WatchAction::Resume);
    }
    assert(action_views(actions@) == seq![ActionView::Show(None)] + (if has_task {
        seq![ActionView::Resume]
    } else {
        Seq::empty()
    }));
    actions
}

} // verus!
