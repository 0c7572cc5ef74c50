use everyfile::indexing::{
    candidate_route, index_status_from_row, recorded_extension, rename_outcome, size_as_stored, stored_document_is_current, lexically_within, lists_error_details,
    modified_at_string, ocr_attempt_mode, settle_parse, CandidateRoute, ExtractionError,
    IndexingError, JobRow, ParseRun, RenameOutcome, RenamedDocument, RuntimeIndexSettings,
};
use everyfile::indexing::{
    after_token_claim, claim_parse_attempt, ClaimStep, ParseAttemptTokenGenerator, SecureParseAttemptTokenGenerator, TokenClaim,
};
use everyfile::models::{IndexFailure, JobState};
use everyfile::pipeline::{discovery_wait, parsing_follows, DiscoveryWait};
use everyfile::ocr::OcrError;
use everyfile::parsing::ParserError;

fn settings(math: bool) -> RuntimeIndexSettings {
    RuntimeIndexSettings {
        max_file_size_bytes: 1024,
        excluded_path_patterns: Vec::new(),
        indexing_intensity: "balanced".to_string(),
        ocr_enabled: true,
        math_ocr_enabled: math,
    }
}

#[test]
fn current_candidates_are_taken_from_the_cache() {
    assert_eq!(candidate_route(true, false, true, true), CandidateRoute::Cached);
    assert_eq!(candidate_route(false, true, false, false), CandidateRoute::Extract);
    assert_eq!(candidate_route(true, true, false, false), CandidateRoute::MetadataOnly);
    assert_eq!(candidate_route(false, true, false, true), CandidateRoute::MetadataOnly);
    assert_eq!(candidate_route(false, false, false, false), CandidateRoute::MetadataOnly);
}

#[test]
fn math_ocr_mode_is_for_pdfs_only() {
    assert_eq!(ocr_attempt_mode("C:\\docs\\paper.PDF", &settings(true)), "math");
    assert_eq!(ocr_attempt_mode("C:\\docs\\scan.png", &settings(true)), "text");
    assert_eq!(ocr_attempt_mode("C:\\docs\\paper.pdf", &settings(false)), "text");
}

#[test]
fn parse_runs_settle_into_ocr_status_and_failure() {
    let done = settle_parse(&ParseRun::Parsed { engine: Some("PaddleOCR".to_string()) });
    assert_eq!(done.ocr_status, "completed");
    assert_eq!(done.ocr_code, None);
    assert_eq!(done.failure, None);
    let plain = settle_parse(&ParseRun::Parsed { engine: Some("pdfium".to_string()) });
    assert_eq!(plain.ocr_status, "skipped");
    let none = settle_parse(&ParseRun::Parsed { engine: None });
    assert_eq!(none.ocr_status, "skipped");
    let cancelled_ocr = settle_parse(&ParseRun::Failed(ExtractionError::Ocr(OcrError::Cancelled)));
    assert_eq!(cancelled_ocr.ocr_status, "cancelled");
    assert_eq!(cancelled_ocr.ocr_code.as_deref(), Some("OCR_CANCELLED"));
    let failed = settle_parse(&ParseRun::Failed(ExtractionError::Parser(ParserError::Timeout)));
    assert_eq!(failed.ocr_status, "failed");
    assert_eq!(failed.ocr_code.as_deref(), Some("TIMEOUT"));
    assert_eq!(failed.failure.as_ref().map(|f| f.0.as_str()), Some("TIMEOUT"));
    let stopped = settle_parse(&ParseRun::WorkerStopped);
    assert_eq!(stopped.ocr_status, "failed");
    assert_eq!(
        stopped.failure,
        Some((
            "PARSER_WORKER_STOPPED".to_string(),
            "parser worker stopped unexpectedly".to_string()
        ))
    );
    let cancelled = settle_parse(&ParseRun::Cancelled);
    assert_eq!(cancelled.ocr_status, "cancelled");
    assert_eq!(cancelled.ocr_code.as_deref(), Some("OCR_CANCELLED"));
    assert_eq!(cancelled.failure, None);
}

#[test]
fn modification_times_are_decimal_nanoseconds() {
    assert_eq!(modified_at_string(Some(1_700_000_000_123_456_789)), "1700000000123456789");
    assert_eq!(modified_at_string(Some(0)), "0");
    assert_eq!(modified_at_string(None), "");
}

#[test]
fn paths_are_within_a_root_by_their_canonical_parent() {
    assert!(lexically_within("C:\\Docs", Some("C:\\Docs\\sub")));
    assert!(!lexically_within("C:\\Docs", Some("C:\\Docsother")));
    assert!(!lexically_within("C:\\Docs", None));
}

fn failure(code: &str) -> IndexFailure {
    IndexFailure { code: code.to_string(), file_name: "a.txt".to_string(), message: "m".to_string() }
}

#[test]
fn job_status_reads_its_row() {
    let row = JobRow {
        state: "completed".to_string(),
        total_files: 5,
        completed_files: -1,
        last_path: Some("C:\\a.txt".to_string()),
        origin: "watcher".to_string(),
    };
    let status = index_status_from_row("job-1", Some(row), 2, vec![failure("A"), failure("B")]).unwrap();
    assert_eq!(status.job_id, "job-1");
    assert_eq!(status.state, JobState::Completed);
    assert_eq!(status.total_files, 5);
    assert_eq!(status.completed_files, 0);
    assert_eq!(status.error_count, 2);
    assert_eq!(status.errors.len(), 2);
    assert!(status.silent);

    let running = JobRow {
        state: "parsing".to_string(),
        total_files: 1,
        completed_files: 0,
        last_path: None,
        origin: "manual".to_string(),
    };
    let status = index_status_from_row("job-2", Some(running), 1, vec![failure("A")]).unwrap();
    assert!(status.errors.is_empty());
    assert!(!status.silent);
    assert!(!lists_error_details(JobState::Parsing));
    assert!(lists_error_details(JobState::Failed));

    let many: Vec<IndexFailure> = (0..150).map(|_| failure("X")).collect();
    let done = JobRow {
        state: "failed".to_string(),
        total_files: 1,
        completed_files: 1,
        last_path: None,
        origin: "manual".to_string(),
    };
    let status = index_status_from_row("job-3", Some(done), 150, many).unwrap();
    assert_eq!(status.errors.len(), 100);
}

#[test]
fn job_status_reports_missing_and_corrupt_rows() {
    assert!(matches!(
        index_status_from_row("job-9", None, 0, Vec::new()),
        Err(IndexingError::JobNotFound(id)) if id == "job-9"
    ));
    let row = JobRow {
        state: "exploded".to_string(),
        total_files: 0,
        completed_files: 0,
        last_path: None,
        origin: "manual".to_string(),
    };
    assert!(matches!(
        index_status_from_row("job-9", Some(row), 0, Vec::new()),
        Err(IndexingError::InvalidState(v)) if v == "exploded"
    ));
}

struct CountingTokens(std::cell::Cell<u32>);

impl ParseAttemptTokenGenerator for CountingTokens {
    fn generate(&self) -> String {
        self.0.set(self.0.get() + 1);
        format!("token-{}", self.0.get())
    }
}

#[test]
fn token_collisions_are_retried_with_fresh_tokens() {
    let tokens = CountingTokens(std::cell::Cell::new(0));
    let result = claim_parse_attempt(&tokens, &|token: &str| {
        if token == "token-3" {
            TokenClaim::Claimed(7u32)
        } else {
            TokenClaim::Collision(IndexingError::Database("UNIQUE".to_string()))
        }
    });
    assert_eq!(result, Ok(("token-3".to_string(), 7)));

    let tokens = CountingTokens(std::cell::Cell::new(0));
    let result: Result<(String, u32), IndexingError> = claim_parse_attempt(&tokens, &|_token: &str| {
        TokenClaim::Collision(IndexingError::Database("UNIQUE".to_string()))
    });
    assert_eq!(result, Err(IndexingError::Database("UNIQUE".to_string())));
    assert_eq!(tokens.0.get(), 4);

    let tokens = CountingTokens(std::cell::Cell::new(0));
    let result: Result<(String, u32), IndexingError> =
        claim_parse_attempt(&tokens, &|_token: &str| TokenClaim::Failed(IndexingError::StateChanged));
    assert_eq!(result, Err(IndexingError::StateChanged));
    assert_eq!(tokens.0.get(), 1);
}

#[test]
fn secure_tokens_are_thirty_two_hex_digits() {
    let token = SecureParseAttemptTokenGenerator.generate();
    assert_eq!(token.len(), 32);
    assert!(token.chars().all(|c| c.is_ascii_hexdigit() && !c.is_ascii_uppercase()));
    assert_ne!(token, SecureParseAttemptTokenGenerator.generate());
}

fn stored(state: &str, content: bool) -> Option<everyfile::indexing::StoredDocument> {
    Some(everyfile::indexing::StoredDocument {
        size_bytes: 10,
        modified_at: "123".to_string(),
        parse_state: state.to_string(),
        has_content: content,
        has_fts: content,
    })
}

#[test]
fn stored_documents_are_current_only_for_the_same_version() {
    assert!(stored_document_is_current(&stored("parsed", true), 10, "123", true));
    assert!(!stored_document_is_current(&stored("parsed", false), 10, "123", true));
    assert!(!stored_document_is_current(&stored("parsed", true), 11, "123", true));
    assert!(!stored_document_is_current(&stored("parsed", true), 10, "124", true));
    assert!(stored_document_is_current(&stored("metadata_only", false), 10, "123", false));
    assert!(!stored_document_is_current(&stored("parsed", true), 10, "123", false));
    assert!(!stored_document_is_current(&None, 10, "123", false));
    assert_eq!(size_as_stored(u64::MAX), i64::MAX);
    assert_eq!(size_as_stored(42), 42);
}

#[test]
fn renames_keep_the_entry_only_for_the_same_file() {
    let doc = |size: i64, modified: &str, active: bool| {
        Some(RenamedDocument {
            id: "d1".to_string(),
            size_bytes: size,
            modified_at: modified.to_string(),
            attempt_active: active,
        })
    };
    assert_eq!(rename_outcome(&doc(5, "99", false), 5, "99"), RenameOutcome::Moved);
    assert_eq!(rename_outcome(&doc(5, "99", true), 5, "99"), RenameOutcome::MovedAndReindexed);
    assert_eq!(rename_outcome(&doc(5, "99", false), 6, "99"), RenameOutcome::Replaced);
    assert_eq!(rename_outcome(&doc(5, "99", false), 5, "98"), RenameOutcome::Replaced);
    assert_eq!(rename_outcome(&None, 5, "99"), RenameOutcome::Replaced);
    assert_eq!(recorded_extension("C:\\a\\Report.PDF"), "pdf");
    assert_eq!(recorded_extension("C:\\a\\README"), "");
}

#[test]
fn only_a_collision_before_the_last_try_asks_for_another_token() {
    let collision = || TokenClaim::<u32>::Collision(IndexingError::Database("UNIQUE".to_string()));
    assert!(matches!(after_token_claim(collision(), 0), ClaimStep::Retry));
    assert!(matches!(after_token_claim(collision(), 2), ClaimStep::Retry));
    assert!(matches!(
        after_token_claim(collision(), 3),
        ClaimStep::Done(Err(IndexingError::Database(m))) if m == "UNIQUE"
    ));
    assert!(matches!(
        after_token_claim(TokenClaim::<u32>::Failed(IndexingError::StateChanged), 0),
        ClaimStep::Done(Err(IndexingError::StateChanged))
    ));
    assert!(matches!(after_token_claim(TokenClaim::Claimed(5u32), 1), ClaimStep::Done(Ok(5))));
}

#[test]
fn waiting_for_discovery_ends_on_stop_state_change_or_result() {
    assert!(matches!(discovery_wait(true, Some(JobState::Discovering), None, false), DiscoveryWait::Proceed));
    assert!(matches!(discovery_wait(false, Some(JobState::Parsing), None, false), DiscoveryWait::Proceed));
    assert!(matches!(discovery_wait(false, Some(JobState::Discovering), None, false), DiscoveryWait::Poll));
    assert!(matches!(discovery_wait(false, Some(JobState::Discovering), Some(Ok(())), false), DiscoveryWait::Proceed));
    assert!(matches!(
        discovery_wait(false, Some(JobState::Discovering), Some(Err(IndexingError::StateChanged)), false),
        DiscoveryWait::Fail { error: IndexingError::StateChanged, record: true }
    ));
    assert!(matches!(
        discovery_wait(false, Some(JobState::Discovering), Some(Err(IndexingError::StateChanged)), true),
        DiscoveryWait::Fail { record: false, .. }
    ));
    assert!(parsing_follows(false, Some(JobState::Parsing)));
    assert!(!parsing_follows(true, Some(JobState::Parsing)));
    assert!(!parsing_follows(false, Some(JobState::Completed)));
    assert!(!parsing_follows(false, None));
}
