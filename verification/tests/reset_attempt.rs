use everyfile::diagnostics::{
    DiagnosticError, FileIdentity, ResetCommitRecord, ResetCompletionRecord, ResetRecord,
    ResetRequest, ResetStateStep,
};
use everyfile::reset_attempt::{
    begin_reset_attempt, owner_record, AttemptAction, AttemptEvent, AttemptPhase,
};

const NONCE: &str = "0123456789abcdef0123456789abcdef";

fn request() -> ResetRequest {
    ResetRequest { nonce: NONCE.to_string(), parent_pid: 42, parent_created: 7 }
}

fn commit() -> ResetCommitRecord {
    ResetCommitRecord {
        request: request(),
        staging_name: format!(".com.cybereun.everyfile-reset-empty-{NONCE}-ffffffffffffffffffffffffffffffff"),
        target_identity: FileIdentity { volume: 1, index: 5 },
    }
}

#[test]
fn a_fresh_reset_owns_deletes_stages_and_commits() {
    let (mut attempt, first) = begin_reset_attempt(NONCE.to_string(), request()).unwrap();
    assert_eq!(first, AttemptAction::Survey);
    let root = FileIdentity { volume: 1, index: 2 };
    let stage = FileIdentity { volume: 1, index: 3 };
    let steps = [
        (AttemptEvent::Surveyed { completion: false, startup: false, commit: false, owner: false }, AttemptAction::OpenRoot),
        (AttemptEvent::RootOpened { identity: root, is_reparse: false, quarantine_exists: false }, AttemptAction::WriteRecord(ResetStateStep::Owner)),
        (AttemptEvent::Done, AttemptAction::PrepareStage),
        (AttemptEvent::StagePrepared { at_target: false, staging_identity: stage }, AttemptAction::SurveyCleanup),
        (AttemptEvent::CleanupSurveyed { cleaned: false, deleting: false, quarantine: false }, AttemptAction::OpenQuarantine),
        (AttemptEvent::Done, AttemptAction::WriteRecord(ResetStateStep::Deleting)),
        (AttemptEvent::Done, AttemptAction::RemoveQuarantine),
        (AttemptEvent::Done, AttemptAction::WriteRecord(ResetStateStep::Deleted)),
        (AttemptEvent::Done, AttemptAction::InspectTarget),
        (AttemptEvent::TargetInspected { exists: false }, AttemptAction::RenameStage),
        (AttemptEvent::Done, AttemptAction::VerifyEmptyTarget(stage)),
        (AttemptEvent::Done, AttemptAction::WriteRecord(ResetStateStep::Committed)),
        (AttemptEvent::Done, AttemptAction::VerifyEmptyTarget(stage)),
        (AttemptEvent::Done, AttemptAction::WriteRecord(ResetStateStep::Completed)),
        (AttemptEvent::Done, AttemptAction::ValidateMarkers),
        (AttemptEvent::Done, AttemptAction::Cleanup),
        (AttemptEvent::Done, AttemptAction::Finish(Ok(()))),
    ];
    for (event, expected) in steps {
        assert_eq!(attempt.step(event), expected);
    }
    assert_eq!(attempt.phase, AttemptPhase::Finished);
}

#[test]
fn a_completed_reset_is_only_cleaned_up() {
    let (mut attempt, _) = begin_reset_attempt(NONCE.to_string(), request()).unwrap();
    assert_eq!(
        attempt.step(AttemptEvent::Surveyed { completion: true, startup: false, commit: true, owner: true }),
        AttemptAction::ReadCompletion
    );
    assert_eq!(
        attempt.step(AttemptEvent::CompletionRead(ResetCompletionRecord { commit: commit() })),
        AttemptAction::VerifyTarget(FileIdentity { volume: 1, index: 5 })
    );
    assert_eq!(attempt.step(AttemptEvent::Done), AttemptAction::ValidateMarkers);
    assert_eq!(attempt.step(AttemptEvent::Done), AttemptAction::Cleanup);
    assert_eq!(attempt.step(AttemptEvent::Done), AttemptAction::Finish(Ok(())));
}

#[test]
fn a_resumed_reset_checks_what_it_finds() {
    let (mut attempt, _) = begin_reset_attempt(NONCE.to_string(), request()).unwrap();
    attempt.step(AttemptEvent::Surveyed { completion: false, startup: false, commit: false, owner: true });
    let mut foreign = owner_record(NONCE, FileIdentity { volume: 1, index: 2 });
    foreign.quarantine_name = "elsewhere".to_string();
    assert_eq!(
        attempt.step(AttemptEvent::OwnerRead(foreign)),
        AttemptAction::Finish(Err(DiagnosticError::InvalidResetRequest))
    );

    let (mut attempt, _) = begin_reset_attempt(NONCE.to_string(), request()).unwrap();
    attempt.step(AttemptEvent::Surveyed { completion: false, startup: false, commit: false, owner: true });
    assert_eq!(
        attempt.step(AttemptEvent::OwnerRead(owner_record(NONCE, FileIdentity { volume: 1, index: 2 }))),
        AttemptAction::PrepareStage
    );
    attempt.step(AttemptEvent::StagePrepared { at_target: false, staging_identity: FileIdentity { volume: 1, index: 3 } });
    assert_eq!(
        attempt.step(AttemptEvent::CleanupSurveyed { cleaned: false, deleting: true, quarantine: false }),
        AttemptAction::ReadRecord(ResetRecord::Deleting)
    );
    assert_eq!(
        attempt.step(AttemptEvent::OwnerRead(owner_record(NONCE, FileIdentity { volume: 1, index: 2 }))),
        AttemptAction::InspectTarget
    );
    assert_eq!(
        attempt.step(AttemptEvent::TargetInspected { exists: true }),
        AttemptAction::Finish(Err(DiagnosticError::ResetTargetConflict))
    );

    let (mut attempt, _) = begin_reset_attempt(NONCE.to_string(), request()).unwrap();
    attempt.step(AttemptEvent::Surveyed { completion: false, startup: false, commit: false, owner: false });
    assert_eq!(
        attempt.step(AttemptEvent::RootOpened { identity: FileIdentity { volume: 1, index: 2 }, is_reparse: true, quarantine_exists: false }),
        AttemptAction::Finish(Err(DiagnosticError::ResetTargetConflict))
    );
    assert!(matches!(begin_reset_attempt("bad".to_string(), request()), Err(DiagnosticError::InvalidResetRequest)));
}
