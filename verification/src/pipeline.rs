//! The parsing stage of an indexing job: candidates are taken from the
//! pending queue and handed to at most `MAX_PARSER_CONCURRENCY` workers at a
//! time; the first failure stops the intake, and the job ends failed,
//! completed or stopped. The task that owns the queue and the workers asks
//! what to do next and reports what happened.
use vstd::prelude::*;

use crate::indexing::IndexingError;
use crate::models::JobState;

verus! {

/// How many candidates are parsed at once.
pub const MAX_PARSER_CONCURRENCY: usize = 3;

/// What the stage does next.
#[derive(Debug, Clone, Copy, PartialEq, Eq, Structural)]
pub enum PipelineAction {
    /// Take the next pending candidate and start a worker on it.
    Receive,
    /// Wait for a running worker to finish.
    Join,
    /// All workers are done; the job ends.
    Finish,
}

/// What a finished worker's result means for the job.
#[derive(Debug, Clone, Copy, PartialEq, Eq, Structural)]
pub enum JoinOutcome {
    /// The candidate was handled: report the job's progress.
    Progress,
    /// Nothing to report: the job was stopped under the worker, or a first
    /// failure is already recorded.
    Ignored,
    /// The job's first failure: stop the job.
    Fatal,
}

/// How the job ends once its stage is done.
#[derive(Debug, Clone, PartialEq, Eq)]
pub enum JobEnd {
    Failed(IndexingError),
    Completed,
    /// Paused or cancelled from outside: the state is left to whoever
    /// stopped it.
    Stopped,
}

/// The stage's state: whether candidates may still come, how many workers
/// run, and the first failure.
#[derive(Debug)]
pub struct ParsePipeline {
    pub input_open: bool,
    pub running: usize,
    pub fatal: Option<IndexingError>,
}

impl ParsePipeline {
    /// Never more workers than allowed; after a failure nothing is taken in.
    pub open spec fn inv(&self) -> bool {
        &&& self.running <= MAX_PARSER_CONCURRENCY
        &&& self.fatal is Some ==> !self.input_open
    }
}

/// Asks for the next step; `stop` is whether the job was told to stop.
pub open spec fn spec_poll(p: ParsePipeline, stop: bool) -> (ParsePipeline, PipelineAction) {
    if p.input_open && p.running < MAX_PARSER_CONCURRENCY && !stop {
        (p, PipelineAction::Receive)
    } else {
        (
            ParsePipeline { input_open: p.input_open && !stop, running: p.running, fatal: p.fatal },
            if p.running == 0 {
                PipelineAction::Finish
            } else {
                PipelineAction::Join
            },
        )
    }
}

/// A candidate was taken (a worker now runs on it), or the queue is done.
pub open spec fn spec_received(p: ParsePipeline, got_candidate: bool) -> ParsePipeline {
    if got_candidate {
        ParsePipeline { input_open: p.input_open, running: (p.running + 1) as usize, fatal: p.fatal }
    } else {
        ParsePipeline { input_open: false, running: p.running, fatal: p.fatal }
    }
}

/// A worker finished with this result; `stop` is whether the job was told
/// to stop.
pub open spec fn spec_joined(p: ParsePipeline, result: Result<(), IndexingError>, stop: bool) -> (
    ParsePipeline,
    JoinOutcome,
) {
    let running = (p.running - 1) as usize;
    match result {
        Ok(()) => (
            ParsePipeline { input_open: p.input_open, running, fatal: p.fatal },
            JoinOutcome::Progress,
        ),
        Err(e) => if stop && e == IndexingError::StateChanged {
            (ParsePipeline { input_open: p.input_open, running, fatal: p.fatal }, JoinOutcome::Ignored)
        } else if p.fatal is None {
            (ParsePipeline { input_open: false, running, fatal: Some(e) }, JoinOutcome::Fatal)
        } else {
            (ParsePipeline { input_open: p.input_open, running, fatal: p.fatal }, JoinOutcome::Ignored)
        },
    }
}

/// The end of a job whose stage is done.
pub open spec fn spec_job_end(fatal: Option<IndexingError>, stop: bool) -> JobEnd {
    match fatal {
        Some(e) => JobEnd::Failed(e),
        None => if stop {
            JobEnd::Stopped
        } else {
            JobEnd::Completed
        },
    }
}

impl ParsePipeline {
    pub fn new() -> (r: ParsePipeline)
        ensures
            r.inv(),
            r.input_open,
            r.running == 0,
            r.fatal is None,
    {
        ParsePipeline { input_open: true, running: 0, fatal: None }
    }

    pub fn poll(&mut self, stop: bool) -> (r: PipelineAction)
        requires
            old(self).inv(),
        ensures
            final(self).inv(),
            (*final(self), r) == spec_poll(*old(self), stop),
    {
        if self.input_open && self.running < MAX_PARSER_CONCURRENCY && !stop {
            return PipelineAction::Receive;
        }
        if stop {
            self.input_open = false;
        }
        if self.running == 0 {
            PipelineAction::Finish
        } else {
            PipelineAction::Join
        }
    }

    /// Reports what taking a candidate gave: one (now being parsed) or the
    /// end of the queue. Only after `poll` asked to receive.
    pub fn received(&mut self, got_candidate: bool)
        requires
            old(self).inv(),
            old(self).input_open,
            old(self).running < MAX_PARSER_CONCURRENCY,
        ensures
            final(self).inv(),
            *final(self) == spec_received(*old(self), got_candidate),
    {
        if got_candidate {
            self.running = self.running + 1;
        } else {
            self.input_open = false;
        }
    }

    /// Reports a finished worker. Only while one runs.
    pub fn joined(&mut self, result: Result<(), IndexingError>, stop: bool) -> (r: JoinOutcome)
        requires
            old(self).inv(),
            old(self).running > 0,
        ensures
            final(self).inv(),
            (*final(self), r) == spec_joined(*old(self), result, stop),
    {
        self.running = self.running - 1;
        match result {
            Ok(()) => JoinOutcome::Progress,
            Err(e) => {
                let state_changed = match e {
                    IndexingError::StateChanged => true,
                    _ => false,
                };
                if stop && state_changed {
                    JoinOutcome::Ignored
                } else if self.fatal.is_none() {
                    self.fatal = Some(e);
                    self.input_open = false;
                    JoinOutcome::Fatal
                } else {
                    JoinOutcome::Ignored
                }
            },
        }
    }

    /// How the job ends: failed with the first failure, completed, or left
    /// to whoever stopped it.
    pub fn job_end(self, stop: bool) -> (r: JobEnd)
        ensures
            r == spec_job_end(self.fatal, stop),
    {
        match self.fatal {
            Some(e) => JobEnd::Failed(e),
            None => if stop {
                JobEnd::Stopped
            } else {
                JobEnd::Completed
            },
        }
    }
}

/// Once a worker failed, no further candidate is taken in, whether or not
/// the job was told to stop.
pub proof fn law_no_intake_after_a_failure(p: ParsePipeline, stop: bool)
    requires
        p.inv(),
        p.fatal is Some,
    ensures
        spec_poll(p, stop).1 != PipelineAction::Receive,
{
}

/// The first failure is the one the job fails with: later results never
/// replace it.
pub proof fn law_first_failure_is_kept(p: ParsePipeline, result: Result<(), IndexingError>, stop: bool)
    requires
        p.fatal is Some,
        p.running > 0,
    ensures
        spec_joined(p, result, stop).0.fatal == p.fatal,
{
}

/// However the stage is driven, never more than `MAX_PARSER_CONCURRENCY`
/// workers run: taking a candidate is only asked for below the limit.
pub proof fn law_workers_stay_within_the_limit(p: ParsePipeline, stop: bool)
    requires
        p.inv(),
        spec_poll(p, stop).1 == PipelineAction::Receive,
    ensures
        spec_received(spec_poll(p, stop).0, true).running <= MAX_PARSER_CONCURRENCY,
{
}


// ---------------------------------------------------------------------------
// Waiting for discovery
// ---------------------------------------------------------------------------

/// What a job does while its discovery runs, at each look.
#[derive(Debug)]
pub enum DiscoveryWait {
    /// Look again after a short sleep.
    Poll,
    /// Stop waiting: go on to parsing if the job is parsing and not stopped.
    Proceed,
    /// Discovery failed: record the failure on the job when `record` (the
    /// job was not stopped), then report the status and end the job.
    Fail { error: IndexingError, record: bool },
}

/// One look at a job waiting for its discovery: a stop or a state other
/// than discovering ends the wait; a finished discovery ends it too, and
/// its failure fails the job unless the job was stopped meanwhile.
/// `state` is the job's state as read (`None` where it could not be read),
/// `finished` the discovery's result once it finished, and `stopped_after`
/// whether the job was stopped when that result was seen.
pub open spec fn spec_discovery_wait(
    stopped: bool,
    state: Option<JobState>,
    finished: Option<Result<(), IndexingError>>,
    stopped_after: bool,
) -> DiscoveryWait {
    if stopped || state != Some(JobState::Discovering) {
        DiscoveryWait::Proceed
    } else {
        match finished {
            None => DiscoveryWait::Poll,
            Some(Ok(())) => DiscoveryWait::Proceed,
            Some(Err(error)) => DiscoveryWait::Fail { error, record: !stopped_after },
        }
    }
}

pub fn discovery_wait(
    stopped: bool,
    state: Option<JobState>,
    finished: Option<Result<(), IndexingError>>,
    stopped_after: bool,
) -> (r: DiscoveryWait)
    ensures
        r == spec_discovery_wait(stopped, state, finished, stopped_after),
{
    let discovering = match state {
        Some(JobState::Discovering) => true,
        _ => false,
    };
    if stopped || !discovering {
        return DiscoveryWait::Proceed;
    }
    match finished {
        None => DiscoveryWait::Poll,
        Some(Ok(())) => DiscoveryWait::Proceed,
        Some(Err(error)) => DiscoveryWait::Fail { error, record: !stopped_after },
    }
}

/// Whether a job goes on to parsing once the wait is over: it was not
/// stopped and discovery promoted it to parsing.
pub fn parsing_follows(stopped: bool, state: Option<JobState>) -> (r: bool)
    ensures
        r == (!stopped && state == Some(JobState::Parsing)),
{
    let parsing = match state {
        Some(JobState::Parsing) => true,
        _ => false,
    };
    !stopped && parsing
}
} // verus!
