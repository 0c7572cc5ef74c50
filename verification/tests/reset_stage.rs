use everyfile::diagnostics::{valid_reset_staging_name, DiagnosticError, FileIdentity};
use everyfile::reset_stage::{
    begin_stage, new_staging_name, PreparedStage, ResetStageRecord, StageAction, StageEvent,
    StagePhase,
};

const NONCE: &str = "0123456789abcdef0123456789abcdef";

fn root() -> FileIdentity {
    FileIdentity { volume: 1, index: 2 }
}

#[test]
fn a_fresh_stage_is_created_recorded_and_moved() {
    assert!(valid_reset_staging_name(NONCE, &new_staging_name(NONCE)));
    let (mut prep, first) = begin_stage(NONCE.to_string(), root()).unwrap();
    assert!(matches!(first, StageAction::SurveyStage));
    assert!(matches!(prep.step(StageEvent::Surveyed { record_exists: false }), StageAction::OpenRoot));
    match prep.step(StageEvent::RootOpened { identity: root(), is_reparse: false, is_directory: true, quarantine_exists: false }) {
        StageAction::CreateStage(name) => assert!(valid_reset_staging_name(NONCE, &name)),
        other => panic!("unexpected {other:?}"),
    }
    let staged = FileIdentity { volume: 1, index: 3 };
    assert!(matches!(prep.step(StageEvent::Created { identity: staged }), StageAction::WriteStageRecord));
    assert!(matches!(prep.step(StageEvent::Done), StageAction::RenameToStaging));
    assert!(matches!(prep.step(StageEvent::Done), StageAction::VerifyStaging(id) if id == staged));
    assert!(matches!(
        prep.step(StageEvent::Done),
        StageAction::Finish(Ok(PreparedStage { at_target: false, staging_identity })) if staging_identity == staged
    ));
    assert_eq!(prep.phase, StagePhase::Finished);
}

#[test]
fn taken_names_are_retried_thirty_two_times_at_most() {
    let (mut prep, _) = begin_stage(NONCE.to_string(), root()).unwrap();
    prep.step(StageEvent::Surveyed { record_exists: false });
    prep.step(StageEvent::RootOpened { identity: root(), is_reparse: false, is_directory: true, quarantine_exists: false });
    for _ in 0..31 {
        assert!(matches!(prep.step(StageEvent::NameTaken), StageAction::CreateStage(_)));
    }
    assert!(matches!(
        prep.step(StageEvent::NameTaken),
        StageAction::Finish(Err(DiagnosticError::InvalidResetRequest))
    ));
}

#[test]
fn recorded_stages_and_roots_are_checked() {
    let (mut prep, _) = begin_stage(NONCE.to_string(), root()).unwrap();
    prep.step(StageEvent::Surveyed { record_exists: true });
    let record = ResetStageRecord {
        nonce: NONCE.to_string(),
        staging_name: "elsewhere".to_string(),
        staging_identity: FileIdentity { volume: 1, index: 3 },
    };
    assert!(matches!(
        prep.step(StageEvent::RecordRead(record)),
        StageAction::Finish(Err(DiagnosticError::InvalidResetRequest))
    ));

    let (mut prep, _) = begin_stage(NONCE.to_string(), root()).unwrap();
    prep.step(StageEvent::Surveyed { record_exists: false });
    assert!(matches!(
        prep.step(StageEvent::RootOpened { identity: FileIdentity { volume: 9, index: 9 }, is_reparse: false, is_directory: true, quarantine_exists: false }),
        StageAction::Finish(Err(DiagnosticError::ResetTargetConflict))
    ));
    assert!(matches!(begin_stage("bad".to_string(), root()), Err(DiagnosticError::InvalidResetRequest)));
}
