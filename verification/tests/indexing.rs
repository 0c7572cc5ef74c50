use everyfile::indexing::{job_transition, JobCommand};
use everyfile::indexing::{
    candidate_requires_extraction, extraction_failure, file_name, random_id, should_track_ocr,
    trusted_event_identity, ExtractionError, IndexingError, ParentLookup, RuntimeIndexSettings,
};
use everyfile::models::JobState;
use everyfile::ocr::{OcrError, OcrErrorCode};
use everyfile::parsing::{ParseErrorCode, ParserError};
use std::path::{Path, PathBuf};

fn settings(ocr_enabled: bool) -> RuntimeIndexSettings {
    RuntimeIndexSettings {
        max_file_size_bytes: 10_000,
        excluded_path_patterns: vec![],
        indexing_intensity: "balanced".into(),
        ocr_enabled,
        math_ocr_enabled: false,
    }
}

#[test]
fn mixed_file_candidates_only_extract_supported_content() {
    let mut settings = settings(false);
    assert!(candidate_requires_extraction("report.pdf", &settings));
    assert!(candidate_requires_extraction("notes.hwp", &settings));
    assert!(candidate_requires_extraction("sheet.xlsx", &settings));
    assert!(!candidate_requires_extraction("setup.exe", &settings));
    assert!(!candidate_requires_extraction("scan.png", &settings));

    settings.ocr_enabled = true;
    assert!(candidate_requires_extraction("scan.png", &settings));
    assert!(!candidate_requires_extraction("archive.zip", &settings));
}

#[test]
fn watcher_identity_canonicalizes_only_the_parent_not_the_candidate_file() {
    let root = PathBuf::from("C:\\registered");
    let event_path = root.join("cloud-placeholder.pdf");
    let expected_parent = root.clone();
    let provider = |path: &str| {
        assert_eq!(Path::new(path), expected_parent);
        ParentLookup::Found(path.to_string())
    };

    let identity = trusted_event_identity(
        root.to_str().unwrap(),
        event_path.to_str().unwrap(),
        &provider,
    )
    .unwrap();

    assert_eq!(identity.map(PathBuf::from), Some(event_path));
}

#[test]
fn event_identity_outside_root_or_missing_parent_is_untrusted() {
    let outside = |_: &str| ParentLookup::Found("/elsewhere".to_string());
    assert_eq!(trusted_event_identity("/root", "/root/a.txt", &outside), Ok(None));
    let missing = |_: &str| ParentLookup::NotFound;
    assert_eq!(trusted_event_identity("/root", "/root/a.txt", &missing), Ok(None));
    let failed = |_: &str| ParentLookup::Failed("denied".to_string());
    assert_eq!(
        trusted_event_identity("/root", "/root/sub/a.txt", &failed),
        Err(IndexingError::PathUnavailable {
            path: "/root/sub".to_string(),
            reason: "denied".to_string()
        })
    );
    let found = |p: &str| ParentLookup::Found(p.to_string());
    assert_eq!(trusted_event_identity("/root", "/rootish/a.txt", &found), Ok(None));
    assert_eq!(trusted_event_identity("/root", "/root/", &found), Ok(None));
}

#[test]
fn ocr_tracking_follows_the_master_switch() {
    assert!(!should_track_ocr("scan.PDF", &settings(false)));
    assert!(should_track_ocr("scan.PDF", &settings(true)));
    assert!(should_track_ocr("photo.jpeg", &settings(true)));
    assert!(!should_track_ocr("notes.txt", &settings(true)));
}

#[test]
fn job_states_round_trip_through_their_stored_names() {
    for state in [
        JobState::Queued,
        JobState::Discovering,
        JobState::Parsing,
        JobState::Paused,
        JobState::Completed,
        JobState::Cancelled,
        JobState::Failed,
    ] {
        assert_eq!(JobState::from_sql(state.as_sql()), Ok(state));
    }
    assert_eq!(
        JobState::from_sql("running"),
        Err(IndexingError::InvalidState("running".to_string()))
    );
    assert_eq!(JobState::Paused.as_sql(), "paused");
}

#[test]
fn failures_are_reported_with_stable_codes() {
    let (code, message) = extraction_failure(&ExtractionError::Parser(ParserError::Protocol {
        code: ParseErrorCode::ImageBasedPdf,
        message: "scan".into(),
    }));
    assert_eq!((code, message.as_str()), ("IMAGE_BASED_PDF", "scan"));
    let (code, message) = extraction_failure(&ExtractionError::Parser(ParserError::Timeout));
    assert_eq!((code, message.as_str()), ("TIMEOUT", "parser request timed out"));
    let (code, _) = extraction_failure(&ExtractionError::Ocr(OcrError::Protocol {
        code: OcrErrorCode::ModelMissing,
        message: "missing".into(),
    }));
    assert_eq!(code, "OCR_MODEL_MISSING");
    let (code, message) = extraction_failure(&ExtractionError::OcrUnavailable);
    assert_eq!(code, "OCR_UNAVAILABLE");
    assert_eq!(
        message,
        "Local OCR is enabled but its bundled engine is unavailable"
    );
    assert_eq!(
        IndexingError::Database("x".into()).code(),
        "INDEX_DATABASE_ERROR"
    );
}

#[test]
fn file_names_and_random_ids() {
    assert_eq!(file_name("C:\\docs\\report.pdf"), "report.pdf");
    assert_eq!(file_name("/docs/"), "");
    let id = random_id();
    assert_eq!(id.len(), 32);
    assert!(id.chars().all(|c| c.is_ascii_hexdigit() && !c.is_ascii_uppercase()));
    assert_ne!(id, random_id());
}

#[test]
fn job_commands_follow_the_lifecycle() {
    assert_eq!(job_transition(JobState::Parsing, JobCommand::Pause, ""), Ok(JobState::Paused));
    assert_eq!(
        job_transition(JobState::Paused, JobCommand::Pause, ""),
        Err(IndexingError::Transition { from: JobState::Paused, to: JobState::Paused })
    );
    assert_eq!(
        job_transition(JobState::Paused, JobCommand::Resume { discovery_complete: false }, ""),
        Ok(JobState::Discovering)
    );
    assert_eq!(
        job_transition(JobState::Paused, JobCommand::Resume { discovery_complete: true }, ""),
        Ok(JobState::Parsing)
    );
    assert_eq!(
        job_transition(JobState::Queued, JobCommand::Resume { discovery_complete: true }, ""),
        Err(IndexingError::Transition { from: JobState::Queued, to: JobState::Parsing })
    );
    assert_eq!(job_transition(JobState::Paused, JobCommand::Cancel, ""), Ok(JobState::Cancelled));
    assert_eq!(
        job_transition(JobState::Completed, JobCommand::Cancel, ""),
        Err(IndexingError::Transition { from: JobState::Completed, to: JobState::Cancelled })
    );
    assert_eq!(job_transition(JobState::Discovering, JobCommand::Fail, "x"), Ok(JobState::Failed));
    assert_eq!(
        job_transition(JobState::Failed, JobCommand::Fail, "boom"),
        Err(IndexingError::WorkerFailure("boom".to_string()))
    );
}
