use everyfile::diagnostics::{DiagnosticError, FileIdentity};
use everyfile::reset_write::{begin_state_write, StateWriteAction, StateWriteEvent, StateWritePhase};

const NONCE: &str = "0123456789abcdef0123456789abcdef";

#[test]
fn a_record_is_published_step_by_step() {
    let (mut write, first) = begin_state_write(true, NONCE, 10).unwrap();
    assert!(matches!(first, StateWriteAction::CheckMarker));
    let id = FileIdentity { volume: 1, index: 9 };
    assert!(matches!(write.step(StateWriteEvent::Checked { marker_exists: false }), StateWriteAction::CreateTemp));
    assert!(matches!(write.step(StateWriteEvent::Done), StateWriteAction::WriteBytes { from: 0, to: 5 }));
    assert!(matches!(write.step(StateWriteEvent::Done), StateWriteAction::WriteBytes { from: 5, to: 10 }));
    assert!(matches!(write.step(StateWriteEvent::Done), StateWriteAction::SyncTemp));
    assert!(matches!(write.step(StateWriteEvent::Done), StateWriteAction::InspectTemp));
    assert!(matches!(
        write.step(StateWriteEvent::TempInspected { identity: id, attributes: 0x20 }),
        StateWriteAction::RenameToMarker
    ));
    assert!(matches!(write.step(StateWriteEvent::Done), StateWriteAction::SyncDirectory));
    assert!(matches!(write.step(StateWriteEvent::Done), StateWriteAction::InspectPublished));
    assert!(matches!(
        write.step(StateWriteEvent::PublishedInspected { identity: id, is_reparse: false, is_directory: false }),
        StateWriteAction::SyncFile
    ));
    assert!(matches!(write.step(StateWriteEvent::Done), StateWriteAction::SyncDirectory));
    assert!(matches!(write.step(StateWriteEvent::Done), StateWriteAction::Finish(Ok(()))));
    assert_eq!(write.phase, StateWritePhase::Finished);
}

#[test]
fn a_record_write_stops_at_the_first_problem() {
    assert!(matches!(begin_state_write(false, NONCE, 10), Err(DiagnosticError::InvalidResetRequest)));
    assert!(matches!(begin_state_write(true, "bad", 10), Err(DiagnosticError::InvalidResetRequest)));
    assert!(matches!(begin_state_write(true, NONCE, 1), Err(DiagnosticError::InvalidResetRequest)));
    assert!(matches!(begin_state_write(true, NONCE, 1025), Err(DiagnosticError::InvalidResetRequest)));

    let (mut write, _) = begin_state_write(true, NONCE, 4).unwrap();
    assert!(matches!(
        write.step(StateWriteEvent::Checked { marker_exists: true }),
        StateWriteAction::Finish(Err(DiagnosticError::Io(m))) if m == "reset state marker already exists"
    ));

    let (mut write, _) = begin_state_write(true, NONCE, 4).unwrap();
    write.step(StateWriteEvent::Checked { marker_exists: false });
    assert!(matches!(
        write.step(StateWriteEvent::Failed(DiagnosticError::ResetLocked("busy".into()))),
        StateWriteAction::Finish(Err(DiagnosticError::ResetLocked(m))) if m == "busy"
    ));
    assert!(matches!(
        write.step(StateWriteEvent::Done),
        StateWriteAction::Finish(Err(DiagnosticError::InvalidResetRequest))
    ));

    let (mut write, _) = begin_state_write(true, NONCE, 4).unwrap();
    for event in [
        StateWriteEvent::Checked { marker_exists: false },
        StateWriteEvent::Done,
        StateWriteEvent::Done,
        StateWriteEvent::Done,
        StateWriteEvent::Done,
    ] {
        write.step(event);
    }
    assert!(matches!(
        write.step(StateWriteEvent::TempInspected { identity: FileIdentity { volume: 1, index: 2 }, attributes: 0x400 }),
        StateWriteAction::Finish(Err(DiagnosticError::InvalidResetRequest))
    ));
}
