use everyfile::debounce::{WatcherAction, WatcherDiagnostic, WatcherEvent, WatcherLoop, WatcherPhase};
use everyfile::watcher::WatchChange;

#[test]
fn flush_with_nothing_pending_is_answered_at_once() {
    let mut state = WatcherLoop::new();
    let action = state.step(WatcherEvent::Flush { waiter: 3, overflowed: false });
    assert!(matches!(action, WatcherAction::ReplyNow(3)));
    assert_eq!(state.phase, WatcherPhase::Idle);
}

#[test]
fn flush_after_overflow_waits_for_the_batch() {
    let mut state = WatcherLoop::new();
    let action = state.step(WatcherEvent::Flush { waiter: 3, overflowed: true });
    assert!(matches!(action, WatcherAction::SwapOverflow));
    assert_eq!(state.waiters, vec![3]);
}

#[test]
fn debounced_changes_are_applied_then_waiters_told() {
    let mut state = WatcherLoop::new();
    let action = state.step(WatcherEvent::Change(WatchChange::Write("C:\\a.txt".to_string())));
    assert!(matches!(action, WatcherAction::SwapOverflow));
    let action = state.step(WatcherEvent::Overflow(false));
    assert!(matches!(action, WatcherAction::SwapOverflow));
    let action = state.step(WatcherEvent::Overflow(false));
    assert!(matches!(action, WatcherAction::ReceiveOrTimer { restart_timer: true }));
    let action = state.step(WatcherEvent::Flush { waiter: 9, overflowed: false });
    assert!(matches!(action, WatcherAction::SwapOverflow));
    let action = state.step(WatcherEvent::Overflow(false));
    assert!(matches!(action, WatcherAction::ReceiveOrTimer { restart_timer: false }));
    let action = state.step(WatcherEvent::Change(WatchChange::Delete("C:\\b.txt".to_string())));
    assert!(matches!(action, WatcherAction::SwapOverflow));
    let action = state.step(WatcherEvent::Overflow(false));
    assert!(matches!(action, WatcherAction::SwapOverflow));
    let action = state.step(WatcherEvent::Overflow(false));
    assert!(matches!(action, WatcherAction::ReceiveOrTimer { restart_timer: true }));
    let action = state.step(WatcherEvent::TimerElapsed);
    match action {
        WatcherAction::Reindex(path) => assert_eq!(path, "C:\\a.txt"),
        other => panic!("unexpected {other:?}"),
    }
    let action = state.step(WatcherEvent::Done(Err("locked".to_string())));
    match action {
        WatcherAction::Record(diagnostic) => {
            assert_eq!(diagnostic.code(), "WATCHER_CHANGE_FAILED");
            assert_eq!(diagnostic.message(), "locked");
        }
        other => panic!("unexpected {other:?}"),
    }
    let action = state.step(WatcherEvent::Done(Ok(())));
    match action {
        WatcherAction::RemoveDocument(path) => assert_eq!(path, "C:\\b.txt"),
        other => panic!("unexpected {other:?}"),
    }
    let action = state.step(WatcherEvent::Done(Ok(())));
    match action {
        WatcherAction::Reply { waiters, result } => {
            assert_eq!(waiters, vec![9]);
            assert_eq!(result, Err("locked".to_string()));
        }
        other => panic!("unexpected {other:?}"),
    }
    let action = state.step(WatcherEvent::Done(Ok(())));
    assert!(matches!(action, WatcherAction::Receive));
    assert_eq!(state.phase, WatcherPhase::Idle);
}

#[test]
fn overflow_drops_pending_changes_and_reconciles() {
    let mut state = WatcherLoop::new();
    state.step(WatcherEvent::Change(WatchChange::Write("C:\\a.txt".to_string())));
    let action = state.step(WatcherEvent::Overflow(false));
    assert!(matches!(action, WatcherAction::SwapOverflow));
    let action = state.step(WatcherEvent::Overflow(true));
    match action {
        WatcherAction::Record(diagnostic) => {
            assert_eq!(diagnostic, WatcherDiagnostic::Overflow);
            assert_eq!(diagnostic.code(), "WATCHER_OVERFLOW");
            assert_eq!(
                diagnostic.message(),
                "watcher event capacity was exceeded; a full reconciliation was started"
            );
        }
        other => panic!("unexpected {other:?}"),
    }
    assert!(state.pending.is_empty());
    let action = state.step(WatcherEvent::Done(Ok(())));
    assert!(matches!(action, WatcherAction::Reconcile));
    let action = state.step(WatcherEvent::Done(Err("gone".to_string())));
    match action {
        WatcherAction::Record(WatcherDiagnostic::ReconcileFailed(message)) => assert_eq!(message, "gone"),
        other => panic!("unexpected {other:?}"),
    }
    let action = state.step(WatcherEvent::Done(Ok(())));
    match action {
        WatcherAction::Reply { waiters, result } => {
            assert!(waiters.is_empty());
            assert_eq!(result, Err("gone".to_string()));
        }
        other => panic!("unexpected {other:?}"),
    }
}

#[test]
fn paired_rename_halves_move_the_document() {
    let mut state = WatcherLoop::new();
    state.step(WatcherEvent::Change(WatchChange::RenameFrom { path: "C:\\old.txt".to_string(), tracker: Some(4) }));
    state.step(WatcherEvent::Overflow(false));
    state.step(WatcherEvent::Overflow(false));
    state.step(WatcherEvent::Change(WatchChange::RenameTo { path: "C:\\new.txt".to_string(), tracker: Some(4) }));
    state.step(WatcherEvent::Overflow(false));
    state.step(WatcherEvent::Overflow(false));
    let action = state.step(WatcherEvent::TimerElapsed);
    match action {
        WatcherAction::MoveDocument { from, to } => {
            assert_eq!(from, "C:\\old.txt");
            assert_eq!(to, "C:\\new.txt");
        }
        other => panic!("unexpected {other:?}"),
    }
}

#[test]
fn closed_channel_stops_the_loop() {
    let mut state = WatcherLoop::new();
    let action = state.step(WatcherEvent::Closed);
    assert!(matches!(action, WatcherAction::Stop));
    assert_eq!(state.phase, WatcherPhase::Stopped);
    assert!(!state.expects(&WatcherEvent::TimerElapsed));
}
