use cleanbot::cleaner::{CleanerAction, CleanerEvent, CleanerState, REST_SECS, RETRY_SECS};
use cleanbot::schedule::{get_to_delete_messages, Wait};

#[test]
fn cleaner_starts_by_asking() {
    assert_eq!(CleanerState::new(), CleanerState::Planning);
    assert_eq!(CleanerState::first_action(), CleanerAction::FetchNextWait);
}

#[test]
fn cleaner_sleeps_as_long_as_told() {
    let (s, a) = CleanerState::Planning.step(CleanerEvent::NextWait(Some(42)));
    assert_eq!(s, CleanerState::Sleeping);
    assert_eq!(a, CleanerAction::SleepOrWake(42));
}

#[test]
fn cleaner_retries_after_failed_wait_query() {
    let (s, a) = CleanerState::Planning.step(CleanerEvent::NextWait(None));
    assert_eq!((s, a), (CleanerState::Retrying, CleanerAction::Pause(RETRY_SECS)));
    let (s, a) = CleanerState::Retrying.step(CleanerEvent::Slept);
    assert_eq!((s, a), (CleanerState::Planning, CleanerAction::FetchNextWait));
    assert_eq!(RETRY_SECS, 5);
}

#[test]
fn cleaner_woken_replans() {
    let (s, a) = CleanerState::Sleeping.step(CleanerEvent::Woken);
    assert_eq!((s, a), (CleanerState::Planning, CleanerAction::FetchNextWait));
}

#[test]
fn cleaner_timer_collects() {
    let (s, a) = CleanerState::Sleeping.step(CleanerEvent::TimerFired);
    assert_eq!((s, a), (CleanerState::Collecting, CleanerAction::FetchDue));
}

#[test]
fn cleaner_failed_due_query_replans_without_pause() {
    let (s, a) = CleanerState::Collecting.step(CleanerEvent::DueMessages(None));
    assert_eq!((s, a), (CleanerState::Planning, CleanerAction::FetchNextWait));
}

#[test]
fn cleaner_removes_batch_in_order_then_forgets() {
    let batch = vec![(1, 10), (2, 20), (3, 30)];
    let (mut s, a) = CleanerState::Collecting.step(CleanerEvent::DueMessages(Some(batch.clone())));
    let mut actions = vec![a];
    for _ in 0..3 {
        let (s2, a2) = s.step(CleanerEvent::MessageRemoved);
        s = s2;
        actions.push(a2);
    }
    assert_eq!(
        actions,
        vec![
            CleanerAction::RemoveMessage { message: 1, channel: 10 },
            CleanerAction::RemoveMessage { message: 2, channel: 20 },
            CleanerAction::RemoveMessage { message: 3, channel: 30 },
            CleanerAction::Forget(batch),
        ]
    );
    assert_eq!(s, CleanerState::Forgetting);
    let (s, a) = s.step(CleanerEvent::Forgotten);
    assert_eq!(s, CleanerState::Resting);
    assert_eq!(a, CleanerAction::Pause(REST_SECS));
    let (s, a) = s.step(CleanerEvent::Slept);
    assert_eq!((s, a), (CleanerState::Planning, CleanerAction::FetchNextWait));
}

#[test]
fn cleaner_empty_batch_still_forgets() {
    let (s, a) = CleanerState::Collecting.step(CleanerEvent::DueMessages(Some(vec![])));
    assert_eq!((s, a), (CleanerState::Forgetting, CleanerAction::Forget(vec![])));
}

#[test]
fn cleaner_ignores_unexpected_reports() {
    let (s, a) = CleanerState::Sleeping.step(CleanerEvent::Forgotten);
    assert_eq!((s, a), (CleanerState::Sleeping, CleanerAction::Ignore));
    let (s, a) = CleanerState::Removing { batch: vec![(1, 2)], next: 0 }.step(CleanerEvent::Woken);
    assert_eq!((s, a), (CleanerState::Removing { batch: vec![(1, 2)], next: 0 }, CleanerAction::Ignore));
}

#[test]
fn cleaner_never_ignores_fitting_reports() {
    let mut state = CleanerState::new();
    let mut action = CleanerState::first_action();
    let mut removed = 0;
    let mut due_given = false;
    let mut woken = false;
    let mut wait_queries = 0;
    for _ in 0..40 {
        let report = match &action {
            CleanerAction::FetchNextWait => {
                wait_queries += 1;
                CleanerEvent::NextWait(if wait_queries == 1 { None } else { Some(0) })
            }
            CleanerAction::SleepOrWake(_) => {
                if !woken {
                    woken = true;
                    CleanerEvent::Woken
                } else {
                    CleanerEvent::TimerFired
                }
            }
            CleanerAction::Pause(_) => CleanerEvent::Slept,
            CleanerAction::FetchDue => {
                if due_given {
                    CleanerEvent::DueMessages(None)
                } else {
                    due_given = true;
                    CleanerEvent::DueMessages(Some(vec![(1, 2), (3, 4)]))
                }
            }
            CleanerAction::RemoveMessage { .. } => {
                removed += 1;
                CleanerEvent::MessageRemoved
            }
            CleanerAction::Forget(_) => CleanerEvent::Forgotten,
            CleanerAction::Ignore => panic!("the cleaner ignored a fitting report"),
        };
        let (s, a) = state.step(report);
        assert_ne!(a, CleanerAction::Ignore);
        state = s;
        action = a;
    }
    assert_eq!(removed, 2);
}

#[test]
fn due_message_is_removed_by_the_cleaner() {
    let waits = [
        Wait { delta: 5_000_000_000, message: 1, channel: 9 },
        Wait { delta: -1, message: 2, channel: 9 },
    ];
    let batch = get_to_delete_messages(&waits);
    let (s, _) = CleanerState::Planning.step(CleanerEvent::NextWait(Some(0)));
    let (s, a) = s.step(CleanerEvent::TimerFired);
    assert_eq!(a, CleanerAction::FetchDue);
    let (s, a) = s.step(CleanerEvent::DueMessages(Some(batch.clone())));
    assert_eq!(a, CleanerAction::RemoveMessage { message: 2, channel: 9 });
    let (s, a) = s.step(CleanerEvent::MessageRemoved);
    assert_eq!(a, CleanerAction::Forget(batch));
    assert_eq!(s, CleanerState::Forgetting);
}
