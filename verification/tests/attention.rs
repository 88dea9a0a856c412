use favetto::attention::{
    finish, poll, probe_due, reconcile_task, watch_end, Debouncer, Edge, TaskStatus, WatchAction,
    WatchEnd, TURN_PROBE_INTERVAL,
};
use favetto::model::{AwaitingInputKind, AwaitingInputReason};

fn reason(kind: AwaitingInputKind) -> AwaitingInputReason {
    AwaitingInputReason {
        kind,
        message: "prompt".to_string(),
        request_id: None,
        options: Vec::new(),
        allow_always: false,
    }
}

fn confirmed(debouncer: &Debouncer) -> Option<AwaitingInputKind> {
    debouncer.confirmed().as_ref().map(|r| r.kind)
}

#[test]
fn one_match_then_miss_does_not_mark() {
    let mut debouncer = Debouncer::default();
    assert_eq!(debouncer.observe(Some(reason(AwaitingInputKind::Permission))), None);
    assert_eq!(debouncer.observe(None), None);
    assert!(debouncer.confirmed().is_none());
}

#[test]
fn mark_requires_two_consecutive_matches() {
    let mut debouncer = Debouncer::default();
    assert_eq!(debouncer.observe(None), None);
    assert_eq!(debouncer.observe(Some(reason(AwaitingInputKind::Permission))), None);
    let edge = debouncer.observe(Some(reason(AwaitingInputKind::Permission)));
    assert_eq!(edge, Some(Edge::Mark(reason(AwaitingInputKind::Permission))));
    assert_eq!(confirmed(&debouncer), Some(AwaitingInputKind::Permission));
}

#[test]
fn clear_requires_three_consecutive_misses() {
    let mut debouncer = Debouncer::default();
    debouncer.observe(Some(reason(AwaitingInputKind::Permission)));
    assert!(matches!(
        debouncer.observe(Some(reason(AwaitingInputKind::Permission))),
        Some(Edge::Mark(_))
    ));
    assert_eq!(debouncer.observe(None), None);
    assert_eq!(debouncer.observe(None), None);
    assert_eq!(debouncer.observe(None), Some(Edge::Clear));
    assert!(debouncer.confirmed().is_none());
}

#[test]
fn reason_change_while_confirmed_does_not_remark() {
    let mut debouncer = Debouncer::default();
    debouncer.observe(Some(reason(AwaitingInputKind::Permission)));
    debouncer.observe(Some(reason(AwaitingInputKind::Permission)));
    assert_eq!(debouncer.observe(Some(reason(AwaitingInputKind::Choice))), None);
    assert_eq!(confirmed(&debouncer), Some(AwaitingInputKind::Choice));
}

/// The store of one task, written to as the library asks.
struct Task {
    status: TaskStatus,
}

impl Task {
    /// Writes the status only where the expected one stands; tells whether it did.
    fn reconcile(&mut self, awaiting: bool) -> bool {
        let (to, from) = reconcile_task(awaiting);
        if self.status != from {
            return false;
        }
        self.status = to;
        true
    }

    fn perform(&mut self, actions: &[WatchAction]) {
        for action in actions {
            match action {
                WatchAction::Mark(_) => {
                    self.reconcile(true);
                }
                WatchAction::Resume => {
                    self.reconcile(false);
                }
                WatchAction::Reassert { awaiting } => {
                    self.reconcile(*awaiting);
                }
                WatchAction::Show(_) => {}
            }
        }
    }
}

#[test]
fn watch_flips_running_to_awaiting_and_back() {
    let mut task = Task { status: TaskStatus::Running };
    let mut debouncer = Debouncer::default();

    // The task flips to AwaitingInput while the agent blocks on the prompt.
    for _ in 0..2 {
        task.perform(&poll(&mut debouncer, Some(reason(AwaitingInputKind::Pinentry)), true));
    }
    assert_eq!(task.status, TaskStatus::AwaitingInput);

    // The watcher restored the non-terminal baseline on exit.
    task.perform(&finish(true));
    assert_eq!(task.status, TaskStatus::Running);
    assert_eq!(watch_end(None, Some(0)).exit_code(), Some(0));
}

#[test]
fn reconcile_task_self_heals_awaiting_input() {
    // An external writer marks the task awaiting input; the watcher repairs it.
    let mut task = Task { status: TaskStatus::AwaitingInput };
    assert!(task.reconcile(false));
    assert_eq!(task.status, TaskStatus::Running);
    // The converse: marking is also a targeted conditional write.
    assert!(task.reconcile(true));
    assert_eq!(task.status, TaskStatus::AwaitingInput);
    // A no-op reconcile changes nothing.
    assert!(!task.reconcile(true));
    // A task that has ended stays as it is.
    let mut ended = Task { status: TaskStatus::Elsewhere };
    assert!(!ended.reconcile(true));
    assert!(!ended.reconcile(false));
}

#[test]
fn watch_run_finishes_a_turn_while_the_process_lives() {
    assert_eq!(watch_end(Some(true), None), WatchEnd::TurnFinished { success: true });
    assert_eq!(watch_end(Some(true), None).exit_code(), Some(0));
}

#[test]
fn watch_run_reports_a_failed_turn() {
    assert_eq!(watch_end(Some(false), None), WatchEnd::TurnFinished { success: false });
    // The process still lives, so there is no exit code but that of a clean run.
    assert_eq!(watch_end(Some(false), None).exit_code(), Some(0));
}

#[test]
fn watch_run_without_a_probe_waits_for_exit() {
    assert_eq!(watch_end(None, Some(3)), WatchEnd::Exited(Some(3)));
    assert_eq!(watch_end(None, Some(3)).exit_code(), Some(3));
    assert!(!probe_due(false, TURN_PROBE_INTERVAL));
    assert!(!probe_due(true, TURN_PROBE_INTERVAL - 1));
    assert!(probe_due(true, TURN_PROBE_INTERVAL));
}

#[test]
fn every_poll_shows_and_reasserts() {
    let mut debouncer = Debouncer::default();
    let first = poll(&mut debouncer, Some(reason(AwaitingInputKind::Choice)), true);
    assert_eq!(
        first,
        vec![WatchAction::Show(None), WatchAction::Reassert { awaiting: false }]
    );
    let second = poll(&mut debouncer, Some(reason(AwaitingInputKind::Choice)), true);
    assert_eq!(
        second,
        vec![
            WatchAction::Mark(reason(AwaitingInputKind::Choice)),
            WatchAction::Show(Some(reason(AwaitingInputKind::Choice))),
            WatchAction::Reassert { awaiting: true },
        ]
    );
    // Without a task there is only the session to show it on.
    let mut alone = Debouncer::default();
    assert_eq!(poll(&mut alone, None, false), vec![WatchAction::Show(None)]);
}
