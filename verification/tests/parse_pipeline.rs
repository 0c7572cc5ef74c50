use everyfile::indexing::IndexingError;
use everyfile::pipeline::{JobEnd, JoinOutcome, ParsePipeline, PipelineAction, MAX_PARSER_CONCURRENCY};

#[test]
fn at_most_three_workers_run_at_once() {
    let mut p = ParsePipeline::new();
    for _ in 0..MAX_PARSER_CONCURRENCY {
        assert_eq!(p.poll(false), PipelineAction::Receive);
        p.received(true);
    }
    assert_eq!(p.running, 3);
    assert_eq!(p.poll(false), PipelineAction::Join);
    assert_eq!(p.joined(Ok(()), false), JoinOutcome::Progress);
    assert_eq!(p.poll(false), PipelineAction::Receive);
    p.received(false);
    assert!(!p.input_open);
    assert_eq!(p.poll(false), PipelineAction::Join);
    assert_eq!(p.joined(Ok(()), false), JoinOutcome::Progress);
    assert_eq!(p.joined(Ok(()), false), JoinOutcome::Progress);
    assert_eq!(p.poll(false), PipelineAction::Finish);
    assert_eq!(p.job_end(false), JobEnd::Completed);
}

#[test]
fn the_first_failure_stops_intake_and_fails_the_job() {
    let mut p = ParsePipeline::new();
    p.received(true);
    p.received(true);
    assert_eq!(p.joined(Err(IndexingError::Database("disk".to_string())), false), JoinOutcome::Fatal);
    assert!(!p.input_open);
    assert_ne!(p.poll(false), PipelineAction::Receive);
    assert_eq!(p.joined(Err(IndexingError::WorkerStopped), true), JoinOutcome::Ignored);
    assert_eq!(p.poll(true), PipelineAction::Finish);
    assert_eq!(p.job_end(true), JobEnd::Failed(IndexingError::Database("disk".to_string())));
}

#[test]
fn a_stopped_job_ignores_state_changes() {
    let mut p = ParsePipeline::new();
    p.received(true);
    assert_eq!(p.poll(true), PipelineAction::Join);
    assert!(!p.input_open);
    assert_eq!(p.joined(Err(IndexingError::StateChanged), true), JoinOutcome::Ignored);
    assert_eq!(p.poll(true), PipelineAction::Finish);
    assert_eq!(p.job_end(true), JobEnd::Stopped);
}
