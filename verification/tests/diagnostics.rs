use everyfile::diagnostics::{
        after_reset_attempt, classify_reset_io, reset_resume_point, ResetAttemptStep,
        ResetResumePoint, ResetWorkerOutcome,
    };
use everyfile::diagnostics::{
    fold_windows_path, is_reset_worker_invocation, log_day, log_file_name, log_is_expired,
    log_needs_rotation, prepare_reset_completion_from_args, redaction_spellings,
    replace_path_case_insensitive, require_reset_confirmation, reset_completion_nonce,
    reset_quarantine_name, reset_record_file_name, reset_state_step_tag, start_reset_worker,
    valid_reset_staging_name, ResetRecord, ResetStateStep, valid_reset_nonce, validate_event,
    validate_reset_target, app_data_directory, DiagnosticError, DiagnosticEvent, DiagnosticsLogger,
    ResetCompletionStartup, ResetTargetProbe, finish_reset_completion_startup, reset_target_precheck,
    reset_worker_request, relaunch_after_wait, startup_resume, ResetStartupWait, StartupResume,
};

fn event(level: &str, code: &str, message: &str) -> DiagnosticEvent {
    DiagnosticEvent {
        level: level.to_string(),
        code: code.to_string(),
        message: message.to_string(),
        document_id: None,
    }
}

fn logger(roots: &[&str]) -> DiagnosticsLogger {
    let roots: Vec<String> = roots.iter().map(|r| r.to_string()).collect();
    DiagnosticsLogger::assemble(
        r"C:\Users\me\AppData\Roaming\com.cybereun.everyfile".to_string(),
        r"C:\Users\me\AppData\Roaming\com.cybereun.everyfile\logs".to_string(),
        r"C:\Users\me\AppData\Roaming\com.cybereun.everyfile\logs",
        r"C:\Users\me\AppData\Roaming\com.cybereun.everyfile\logs\diagnostics-20000.jsonl".to_string(),
        false,
        &roots,
    )
    .unwrap()
}

#[test]
fn events_are_validated_in_order() {
    assert_eq!(validate_event(&event("info", "INDEX_OK_1", "fine")), Ok(()));
    assert_eq!(
        validate_event(&event("trace", "BAD code", "fine")),
        Err(DiagnosticError::InvalidEvent("unsupported diagnostic level".into()))
    );
    assert_eq!(
        validate_event(&event("warn", "", "fine")),
        Err(DiagnosticError::InvalidEvent("diagnostic code is invalid".into()))
    );
    assert_eq!(
        validate_event(&event("warn", "lower", "fine")),
        Err(DiagnosticError::InvalidEvent("diagnostic code is invalid".into()))
    );
    assert_eq!(validate_event(&event("error", &"A".repeat(80), "")), Ok(()));
    assert_eq!(
        validate_event(&event("error", &"A".repeat(81), "")),
        Err(DiagnosticError::InvalidEvent("diagnostic code is invalid".into()))
    );
    assert_eq!(validate_event(&event("debug", "X", &"é".repeat(8192))), Ok(()));
    assert_eq!(
        validate_event(&event("debug", "X", &"é".repeat(8193))),
        Err(DiagnosticError::InvalidEvent("diagnostic message is too long".into()))
    );
}

#[test]
fn folding_unifies_separators_and_case() {
    assert_eq!(fold_windows_path(r"C:/Docs\ÄB"), r"c:\docs\äb");
}

#[test]
fn replacement_matches_whole_paths_only() {
    let out = replace_path_case_insensitive(r"open c:/docs/a.txt and C:\DOCSX", r"C:\Docs", "[R]");
    assert_eq!(out, r"open [R]/a.txt and C:\DOCSX");
    assert_eq!(replace_path_case_insensitive("abc", "", "[R]"), "abc");
    assert_eq!(replace_path_case_insensitive(r"C:\a C:\a", r"c:\A", "X"), r"C:\a X");
}

#[test]
fn redaction_covers_every_spelling_and_flattens_lines() {
    let logger = logger(&[r"C:\Docs"]);
    let redacted = logger.redact("failed at \\\\?\\C:\\Docs\\x.pdf\r\nand C:/docs/y");
    assert_eq!(redacted, "failed at [REGISTERED_ROOT]\\x.pdf  and [REGISTERED_ROOT]/y");
    assert_eq!(logger.current_log_path(), r"C:\Users\me\AppData\Roaming\com.cybereun.everyfile\logs\diagnostics-20000.jsonl");
    assert_eq!(logger.log_directory(), r"C:\Users\me\AppData\Roaming\com.cybereun.everyfile\logs");
}

#[test]
fn spellings_are_longest_first_and_unique() {
    let spellings = redaction_spellings(&vec![r"C:\Docs".to_string(), String::new()]);
    assert_eq!(
        spellings,
        vec![r"\\?\C:\Docs".to_string(), r"C:\Docs".to_string(), r"\\?\".to_string()]
    );
}

#[test]
fn logs_outside_the_app_directory_are_refused() {
    let result = DiagnosticsLogger::assemble(
        r"C:\app".to_string(),
        r"C:\app\logs".to_string(),
        r"C:\elsewhere\logs",
        r"C:\elsewhere\logs\diagnostics-1.jsonl".to_string(),
        false,
        &vec![],
    );
    assert!(matches!(result, Err(DiagnosticError::UnsafeLogDirectory)));
    let result = DiagnosticsLogger::assemble(
        r"C:\app".to_string(),
        r"C:\app\logs".to_string(),
        r"C:\app\logs",
        r"C:\app\logs\diagnostics-1.jsonl".to_string(),
        true,
        &vec![],
    );
    assert!(matches!(result, Err(DiagnosticError::UnsafeLogDirectory)));
}

#[test]
fn log_names_carry_their_day() {
    assert_eq!(log_file_name(20123), "diagnostics-20123.jsonl");
    assert_eq!(log_day("diagnostics-20123.jsonl"), Some(20123));
    assert_eq!(log_day("diagnostics-20123.jsonl.2"), Some(20123));
    assert_eq!(log_day("diagnostics-x.jsonl"), None);
    assert_eq!(log_day("other-1.jsonl"), None);
    assert!(log_is_expired("diagnostics-10.jsonl", 18));
    assert!(!log_is_expired("diagnostics-10.jsonl", 17));
    assert!(!log_is_expired("notes.txt", 1000));
    assert!(!log_needs_rotation(1024 * 1024 - 10, 10));
    assert!(log_needs_rotation(1024 * 1024 - 10, 11));
    assert!(log_needs_rotation(u64::MAX, 1));
}

#[test]
fn reset_requests_are_checked() {
    let nonce = "0123456789abcdef0123456789abcdef";
    assert!(valid_reset_nonce(nonce));
    assert!(!valid_reset_nonce("0123456789ABCDEF0123456789abcdef"));
    assert!(!valid_reset_nonce("abc"));
    assert_eq!(
        reset_record_file_name(ResetRecord::Request, nonce).unwrap(),
        format!(".com.cybereun.everyfile-reset-request-{nonce}.json")
    );
    assert_eq!(
        reset_record_file_name(ResetRecord::ParentExited, nonce).unwrap(),
        format!(".com.cybereun.everyfile-reset-parent-exited-{nonce}.json")
    );
    assert!(matches!(
        reset_record_file_name(ResetRecord::Owner, "x"),
        Err(DiagnosticError::InvalidResetRequest)
    ));
    assert_eq!(
        reset_quarantine_name(nonce).unwrap(),
        format!(".com.cybereun.everyfile-reset-quarantine-{nonce}")
    );
    assert_eq!(reset_state_step_tag(ResetStateStep::Deleted), "deleted");
    let staged = format!(".com.cybereun.everyfile-reset-empty-{nonce}-{nonce}");
    assert!(valid_reset_staging_name(nonce, &staged));
    assert!(!valid_reset_staging_name(nonce, &format!("{staged}x")));
    assert!(!valid_reset_staging_name(nonce, "other"));
    assert_eq!(require_reset_confirmation(true), Ok(()));
    assert_eq!(
        require_reset_confirmation(false),
        Err(DiagnosticError::ResetConfirmationRequired)
    );
    assert_eq!(DiagnosticError::ResetUnsupported.code(), "RESET_UNSUPPORTED");
    assert_eq!(DiagnosticError::Io("x".into()).code(), "DIAGNOSTICS_IO_FAILED");
}

#[test]
fn reset_arguments_are_recognized() {
    let args = |items: &[&str]| items.iter().map(|s| s.to_string()).collect::<Vec<_>>();
    assert!(is_reset_worker_invocation(&args(&["app", "--everyfile-reset-after-exit"])));
    assert!(!is_reset_worker_invocation(&args(&["app"])));
    let nonce = "0123456789abcdef0123456789abcdef";
    assert_eq!(reset_completion_nonce(&args(&["app"])), Ok(None));
    assert_eq!(
        reset_completion_nonce(&args(&["app", "--reset-completed", nonce])),
        Ok(Some(nonce.to_string()))
    );
    assert_eq!(
        reset_completion_nonce(&args(&["app", "--reset-completed"])),
        Err(DiagnosticError::InvalidResetRequest)
    );
    assert_eq!(
        reset_completion_nonce(&args(&["app", "--reset-completed", "zz"])),
        Err(DiagnosticError::InvalidResetRequest)
    );
}

const LOCAL: &str = r"C:\Users\me\AppData\Local";

fn probe(resolved: &str) -> ResetTargetProbe {
    ResetTargetProbe {
        local: Ok(r"C:\Users\me\AppData\Local".to_string()),
        directories: Ok(()),
        expected: Ok(r"C:\Users\me\AppData\Local\com.cybereun.everyfile".to_string()),
        resolved: Ok(resolved.to_string()),
    }
}

#[test]
fn reset_targets_must_be_the_app_directory() {
    let expected = r"C:\Users\me\AppData\Local\com.cybereun.everyfile";
    assert_eq!(
        validate_reset_target(LOCAL, expected, probe(expected)),
        Ok(expected.to_string())
    );
    assert_eq!(
        validate_reset_target(LOCAL, r"C:\Users\me\AppData\Local\..\x", probe(expected)),
        Err(DiagnosticError::UnsafeResetTarget)
    );
    assert_eq!(
        validate_reset_target(LOCAL, r"C:\Users\me\Other", probe(expected)),
        Err(DiagnosticError::UnsafeResetTarget)
    );
    assert_eq!(
        validate_reset_target(LOCAL, expected, probe(r"D:\elsewhere")),
        Err(DiagnosticError::UnsafeResetTarget)
    );
    let mut failing = probe(expected);
    failing.local = Err("missing".to_string());
    assert_eq!(
        validate_reset_target(LOCAL, expected, failing),
        Err(DiagnosticError::Io("missing".to_string()))
    );
}

#[test]
fn reset_attempts_retry_only_locked_files() {
    let locked: Result<(), DiagnosticError> = Err(DiagnosticError::ResetLocked("busy".into()));
    assert_eq!(after_reset_attempt(&locked, 0, 3), ResetAttemptStep::RetryAfterDelay);
    assert_eq!(
        after_reset_attempt(&locked, 2, 3),
        ResetAttemptStep::Finish(ResetWorkerOutcome::RetryExhausted)
    );
    assert_eq!(
        after_reset_attempt(&Ok(()), 0, 3),
        ResetAttemptStep::Finish(ResetWorkerOutcome::Success)
    );
    assert_eq!(
        after_reset_attempt(&Err(DiagnosticError::ResetTargetConflict), 0, 3),
        ResetAttemptStep::Finish(ResetWorkerOutcome::TargetConflict)
    );
    assert_eq!(
        after_reset_attempt(&Err(DiagnosticError::InvalidResetRequest), 0, 3),
        ResetAttemptStep::Finish(ResetWorkerOutcome::Failed)
    );
    assert_eq!(classify_reset_io(Some(32), false, "m".into()), DiagnosticError::ResetLocked("m".into()));
    assert_eq!(classify_reset_io(Some(5), true, "m".into()), DiagnosticError::ResetTargetConflict);
    assert_eq!(classify_reset_io(None, false, "m".into()), DiagnosticError::Io("m".into()));
    assert_eq!(reset_resume_point(false, true, true), ResetResumePoint::FinishCompleted);
    assert_eq!(reset_resume_point(false, false, true), ResetResumePoint::CompleteCommitted);
    assert_eq!(reset_resume_point(false, false, false), ResetResumePoint::ContinueTransaction);
}

fn reset_request() -> everyfile::diagnostics::ResetRequest {
    everyfile::diagnostics::ResetRequest {
        nonce: "0123456789abcdef0123456789abcdef".to_string(),
        parent_pid: 42,
        parent_created: 7,
    }
}

fn reset_commit() -> everyfile::diagnostics::ResetCommitRecord {
    everyfile::diagnostics::ResetCommitRecord {
        request: reset_request(),
        staging_name: ".com.cybereun.everyfile-reset-empty-0123456789abcdef0123456789abcdef-ffffffffffffffffffffffffffffffff".to_string(),
        target_identity: everyfile::diagnostics::FileIdentity { volume: 1, index: 2 },
    }
}

#[test]
fn reset_records_are_checked_against_their_request() {
    let nonce = "0123456789abcdef0123456789abcdef";
    let commit = reset_commit();
    assert!(everyfile::diagnostics::validate_commit(&commit, &reset_request(), nonce).is_ok());
    let mut other = reset_request();
    other.parent_pid = 43;
    assert_eq!(
        everyfile::diagnostics::validate_commit(&commit, &other, nonce),
        Err(DiagnosticError::InvalidResetRequest)
    );
    assert_eq!(
        everyfile::diagnostics::validate_commit(&commit, &reset_request(), "ffffffffffffffffffffffffffffffff"),
        Err(DiagnosticError::InvalidResetRequest)
    );
    let mut bad_stage = reset_commit();
    bad_stage.staging_name = "elsewhere".to_string();
    assert!(everyfile::diagnostics::validate_commit(&bad_stage, &reset_request(), nonce).is_err());

    let completion = everyfile::diagnostics::ResetCompletionRecord { commit: reset_commit() };
    assert!(everyfile::diagnostics::validate_completion(&completion, &reset_request(), nonce).is_ok());
    let startup = everyfile::diagnostics::ResetStartupRecord {
        completion: completion.clone(),
        child_pid: 100,
        child_created: 9,
    };
    assert!(everyfile::diagnostics::validate_startup(&startup, &completion, nonce).is_ok());
    let unlaunched = everyfile::diagnostics::ResetStartupRecord {
        completion: completion.clone(),
        child_pid: 0,
        child_created: 9,
    };
    assert_eq!(
        everyfile::diagnostics::validate_startup(&unlaunched, &completion, nonce),
        Err(DiagnosticError::InvalidResetRequest)
    );
}

#[test]
fn full_logs_rotate_oldest_first() {
    let steps = everyfile::diagnostics::rotation_steps("diagnostics-19000.jsonl");
    assert_eq!(
        steps,
        vec![
            ("diagnostics-19000.jsonl.1".to_string(), "diagnostics-19000.jsonl.2".to_string()),
            ("diagnostics-19000.jsonl".to_string(), "diagnostics-19000.jsonl.1".to_string()),
        ]
    );
}

#[test]
fn no_registered_root_is_left_after_redaction() {
    let logger = logger(&[r"C:\Docs", r"D:\Work\Notes"]);
    let redacted = logger.redact("C:\\docs\\a and d:/work/notes/b and C:\\Docsx\\c and c:/DOCS");
    assert_eq!(
        redacted,
        "[REGISTERED_ROOT]\\a and [REGISTERED_ROOT]/b and C:\\Docsx\\c and [REGISTERED_ROOT]"
    );
    let folded = redacted.to_lowercase().replace('/', "\\");
    assert!(!folded.contains("c:\\docs\\"));
    assert!(!folded.ends_with("c:\\docs"));
    assert!(!folded.contains("d:\\work\\notes"));
}

#[test]
fn a_reset_starts_only_for_the_app_directory_under_local_app_data() {
    let expected = r"C:\Users\me\AppData\Local\com.cybereun.everyfile";
    assert_eq!(app_data_directory(LOCAL), expected);
    assert_eq!(app_data_directory(r"C:\Local\"), r"C:\Local\com.cybereun.everyfile");
    assert!(matches!(
        start_reset_worker(None, expected, || probe(expected)),
        Err(DiagnosticError::LocalAppDataUnavailable)
    ));
    assert!(matches!(
        start_reset_worker(Some(LOCAL), r"C:\Users\me\AppData\Local\..\x", || probe(expected)),
        Err(DiagnosticError::UnsafeResetTarget)
    ));
    assert!(matches!(
        start_reset_worker(Some(LOCAL), r"C:\Users\me\AppData\Local\other", || probe(expected)),
        Err(DiagnosticError::UnsafeResetTarget)
    ));
    let launch = start_reset_worker(Some(LOCAL), expected, || probe(expected)).unwrap();
    assert_eq!(launch.target, expected);
    assert_eq!(launch.nonce.len(), 32);
    assert!(launch.nonce.chars().all(|c| c.is_ascii_digit() || ('a'..='f').contains(&c)));
    assert_eq!(
        launch.request_file,
        format!(".com.cybereun.everyfile-reset-request-{}.json", launch.nonce)
    );
}

#[test]
fn a_relaunch_names_a_valid_reset_or_is_refused() {
    let args = |items: &[&str]| items.iter().map(|s| s.to_string()).collect::<Vec<_>>();
    let nonce = "0123456789abcdef0123456789abcdef";
    assert!(matches!(prepare_reset_completion_from_args(&args(&["app"])), Ok(None)));
    assert!(matches!(
        prepare_reset_completion_from_args(&args(&["app", "--reset-completed", nonce])),
        Ok(Some(ResetCompletionStartup { nonce: n })) if n == nonce
    ));
    assert!(matches!(
        prepare_reset_completion_from_args(&args(&["app", "--reset-completed"])),
        Err(DiagnosticError::InvalidResetRequest)
    ));
    assert!(matches!(
        prepare_reset_completion_from_args(&args(&["app", "--reset-completed", "XYZ"])),
        Err(DiagnosticError::InvalidResetRequest)
    ));
}

#[test]
fn finishing_a_reset_names_its_receipts() {
    let nonce = "0123456789abcdef0123456789abcdef";
    let completion = everyfile::diagnostics::ResetCompletionRecord { commit: reset_commit() };
    let written = everyfile::diagnostics::ResetStartupRecord {
        completion: completion.clone(),
        child_pid: 100,
        child_created: 9,
    };
    let startup = ResetCompletionStartup { nonce: nonce.to_string() };
    assert_eq!(
        finish_reset_completion_startup(&startup, &written, &written.clone(), &completion),
        Ok(vec![
            format!(".com.cybereun.everyfile-reset-completed-{nonce}.json"),
            format!(".com.cybereun.everyfile-reset-startup-{nonce}.json"),
        ])
    );
    let mut changed = written.clone();
    changed.child_pid = 101;
    assert_eq!(
        finish_reset_completion_startup(&startup, &written, &changed, &completion),
        Err(DiagnosticError::InvalidResetRequest)
    );
}

#[test]
fn the_reset_target_text_is_checked_before_the_file_system() {
    let probed = std::cell::Cell::new(false);
    let expected = r"C:\Users\me\AppData\Local\com.cybereun.everyfile";
    let looking = || {
        probed.set(true);
        probe(expected)
    };
    assert!(matches!(
        start_reset_worker(Some(LOCAL), r"C:\Users\me\..\x", looking),
        Err(DiagnosticError::UnsafeResetTarget)
    ));
    assert!(!probed.get());
    assert_eq!(reset_target_precheck(None, expected), Err(DiagnosticError::LocalAppDataUnavailable));
    assert_eq!(reset_target_precheck(Some(LOCAL), r"..\x"), Err(DiagnosticError::UnsafeResetTarget));
    assert_eq!(reset_target_precheck(Some(LOCAL), expected), Ok(()));
}

#[test]
fn worker_arguments_name_a_reset_request() {
    let args = |items: &[&str]| items.iter().map(|s| s.to_string()).collect::<Vec<_>>();
    let nonce = "0123456789abcdef0123456789abcdef";
    let request = reset_worker_request(&args(&["app", "--everyfile-reset-after-exit", nonce, "42", "7"])).unwrap();
    assert_eq!(request.nonce, nonce);
    assert_eq!(request.parent_pid, 42);
    assert_eq!(request.parent_created, 7);
    assert!(reset_worker_request(&args(&["app", "--everyfile-reset-after-exit", nonce, "0", "7"])).is_none());
    assert!(reset_worker_request(&args(&["app", "--everyfile-reset-after-exit", nonce, "42"])).is_none());
    assert!(reset_worker_request(&args(&["app", "--everyfile-reset-after-exit", "bad", "42", "7"])).is_none());
    assert!(reset_worker_request(&args(&["app", "--other", nonce, "42", "7"])).is_none());
    assert!(reset_worker_request(&args(&["app", "--everyfile-reset-after-exit", nonce, "x", "7"])).is_none());
    assert!(relaunch_after_wait(ResetStartupWait::FailedChild, 0));
    assert!(relaunch_after_wait(ResetStartupWait::FailedChild, 14));
    assert!(!relaunch_after_wait(ResetStartupWait::FailedChild, 15));
    assert!(!relaunch_after_wait(ResetStartupWait::Completed, 0));
    assert!(!relaunch_after_wait(ResetStartupWait::TimedOut, 0));
}

#[test]
fn a_relaunch_resumes_or_refuses_a_startup_record() {
    let nonce = "0123456789abcdef0123456789abcdef";
    let completion = everyfile::diagnostics::ResetCompletionRecord { commit: reset_commit() };
    let record = everyfile::diagnostics::ResetStartupRecord {
        completion: completion.clone(),
        child_pid: 100,
        child_created: 9,
    };
    assert_eq!(startup_resume(nonce, &completion, true, None, 5, 6, None), StartupResume::Fresh);
    assert_eq!(
        startup_resume(nonce, &completion, true, None, 0, 6, None),
        StartupResume::Refuse(DiagnosticError::InvalidResetRequest)
    );
    assert_eq!(startup_resume(nonce, &completion, true, Some(&record), 100, 9, None), StartupResume::KeepExisting);
    assert_eq!(startup_resume(nonce, &completion, true, Some(&record), 5, 6, None), StartupResume::CheckRecordedChild);
    assert_eq!(
        startup_resume(nonce, &completion, true, Some(&record), 5, 6, Some(true)),
        StartupResume::Refuse(DiagnosticError::InvalidResetRequest)
    );
    assert_eq!(
        startup_resume(nonce, &completion, false, Some(&record), 5, 6, Some(false)),
        StartupResume::Resume { write_completion: true }
    );
}
