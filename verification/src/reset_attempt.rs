//! One attempt of the reset worker, as a state machine: it resumes from the
//! records an earlier attempt left, takes ownership of the application-data
//! directory, moves it to quarantine and deletes it, puts an empty staged
//! directory in its place, and records the commit and the completion. The
//! caller performs each action on the file system and reports how it went.
use vstd::prelude::*;

use crate::diagnostics::{
    spec_commit_valid, spec_valid_reset_nonce, valid_reset_nonce, validate_commit,
    DiagnosticError, FileIdentity, ResetCommitRecord, ResetCompletionRecord, ResetRecord,
    ResetRequest, ResetStateStep,
};
use crate::text::{chars_of, eq_chars};

verus! {

broadcast use vstd::string::group_string_axioms;

/// The record that makes an attempt the owner of the directory it resets.
#[derive(Debug, Clone)]
pub struct ResetOwnerRecord {
    pub nonce: String,
    pub root_identity: FileIdentity,
    pub quarantine_name: String,
}

/// The name the application-data directory is moved to before deletion.
pub open spec fn quarantine_name_of(nonce: Seq<char>) -> Seq<char> {
    ".com.cybereun.everyfile-reset-quarantine-"@ + nonce
}

/// Whether an owner record read back belongs to this attempt: its nonce and
/// quarantine name, and, where the attempt already knows it, the root.
pub open spec fn owner_fits(o: ResetOwnerRecord, nonce: Seq<char>, root: Option<FileIdentity>) -> bool {
    &&& o.nonce@ == nonce
    &&& o.quarantine_name@ == quarantine_name_of(nonce)
    &&& match root {
        Some(id) => o.root_identity == id,
        None => true,
    }
}

fn owner_fits_exec(o: &ResetOwnerRecord, nonce: &str, root: Option<FileIdentity>) -> (r: bool)
    ensures
        r == owner_fits(*o, nonce@, root),
{
    let mut q = chars_of(".com.cybereun.everyfile-reset-quarantine-");
    crate::text::extend_chars(&mut q, chars_of(nonce).as_slice());
    let same_nonce = eq_chars(chars_of(o.nonce.as_str()).as_slice(), chars_of(nonce).as_slice());
    let same_quarantine = eq_chars(chars_of(o.quarantine_name.as_str()).as_slice(), q.as_slice());
    let same_root = match root {
        Some(id) => o.root_identity == id,
        None => true,
    };
    same_nonce && same_quarantine && same_root
}

/// The owner record an attempt writes for the root it opened.
pub fn owner_record(nonce: &str, root_identity: FileIdentity) -> (r: ResetOwnerRecord)
    ensures
        owner_fits(r, nonce@, Some(root_identity)),
{
    let mut q = chars_of(".com.cybereun.everyfile-reset-quarantine-");
    crate::text::extend_chars(&mut q, chars_of(nonce).as_slice());
    ResetOwnerRecord {
        nonce: crate::text::string_from_chars(chars_of(nonce).as_slice()),
        root_identity,
        quarantine_name: crate::text::string_from_chars(q.as_slice()),
    }
}

/// What an attempt waits for: the result of the action it asked for last.
#[derive(Debug, Clone, Copy, PartialEq, Eq, Structural)]
pub enum AttemptPhase {
    AwaitSurvey,
    AwaitCompletion,
    AwaitCompletedTarget,
    AwaitCompletionWrite,
    AwaitMarkers,
    AwaitCleanup,
    AwaitCommit,
    AwaitCommittedTarget,
    AwaitOwner,
    AwaitRoot,
    AwaitOwnerWrite,
    AwaitStage,
    AwaitCleanupSurvey,
    AwaitCleaned,
    AwaitDeleting,
    AwaitFreshQuarantine,
    AwaitDeletingWrite,
    AwaitResumedQuarantine,
    AwaitQuarantineRemoval,
    AwaitTargetGone,
    AwaitDeletedWrite,
    AwaitTargetFree,
    AwaitRename,
    AwaitStagedTarget,
    AwaitCommitWrite,
    Finished,
}

/// An attempt: its nonce and request, where it stands, and what it learned.
pub struct ResetAttempt {
    pub nonce: String,
    pub request: ResetRequest,
    pub phase: AttemptPhase,
    /// The completion record was already there.
    pub completion_exists: bool,
    /// The root directory this attempt owns, once known.
    pub root: Option<FileIdentity>,
    /// The staged directory already stands at the target.
    pub at_target: bool,
    /// The quarantine existed when the clean-up was surveyed.
    pub quarantine_present: bool,
    /// The identity of the staged directory.
    pub staging_identity: FileIdentity,
    /// The identity the target must have once committed.
    pub target_identity: FileIdentity,
}

/// How the last action went.
#[derive(Debug)]
pub enum AttemptEvent {
    Done,
    Failed(DiagnosticError),
    /// Which records an earlier attempt left.
    Surveyed { completion: bool, startup: bool, commit: bool, owner: bool },
    /// The completion record (read from the completion or startup record).
    CompletionRead(ResetCompletionRecord),
    CommitRead(ResetCommitRecord),
    /// An owner, deleting or cleaned record.
    OwnerRead(ResetOwnerRecord),
    /// The validated target was opened: its identity, whether it is a reparse
    /// point, and whether the quarantine already exists.
    RootOpened { identity: FileIdentity, is_reparse: bool, quarantine_exists: bool },
    StagePrepared { at_target: bool, staging_identity: FileIdentity },
    CleanupSurveyed { cleaned: bool, deleting: bool, quarantine: bool },
    /// Whether something stands at the target path.
    TargetInspected { exists: bool },
}

/// What to do next.
#[derive(Debug, PartialEq, Eq)]
pub enum AttemptAction {
    /// Look which records an earlier attempt left.
    Survey,
    ReadCompletion,
    ReadCommit,
    /// Read an owner, deleting or cleaned record.
    ReadRecord(ResetRecord),
    /// Validate the target and open it for renaming.
    OpenRoot,
    /// Load or prepare the empty staged directory.
    PrepareStage,
    /// Look for the cleaned and deleting records and the quarantine.
    SurveyCleanup,
    /// Move the directory to quarantine, or open the quarantine, and pin it.
    OpenQuarantine,
    RemoveQuarantine,
    InspectTarget,
    RenameStage,
    /// Check that the target is the directory with this identity.
    VerifyTarget(FileIdentity),
    /// Check that the target is the empty directory with this identity.
    VerifyEmptyTarget(FileIdentity),
    WriteRecord(ResetStateStep),
    ValidateMarkers,
    /// Remove the transaction's records.
    Cleanup,
    Finish(Result<(), DiagnosticError>),
}

/// Starts an attempt once its request was read: a valid nonce is needed.
pub fn begin_reset_attempt(nonce: String, request: ResetRequest) -> (r: Result<
    (ResetAttempt, AttemptAction),
    DiagnosticError,
>)
    ensures
        spec_valid_reset_nonce(nonce@) ==> (r matches Ok((a, act)) && a.phase == AttemptPhase::AwaitSurvey
            && a.nonce == nonce && a.request == request && a.root is None && act == AttemptAction::Survey),
        !spec_valid_reset_nonce(nonce@) ==> r matches Err(DiagnosticError::InvalidResetRequest),
{
    if !valid_reset_nonce(nonce.as_str()) {
        return Err(DiagnosticError::InvalidResetRequest);
    }
    let zero = FileIdentity { volume: 0, index: 0 };
    Ok(
        (
            ResetAttempt {
                nonce,
                request,
                phase: AttemptPhase::AwaitSurvey,
                completion_exists: false,
                root: None,
                at_target: false,
                quarantine_present: false,
                staging_identity: zero,
                target_identity: zero,
            },
            AttemptAction::Survey,
        ),
    )
}

/// Where a staged directory goes next once the old directory is gone: it is
/// checked in place if it already stands at the target, else the target is
/// checked to be free for the rename.
pub open spec fn place_phase(s: ResetAttempt) -> AttemptPhase {
    if s.at_target {
        AttemptPhase::AwaitStagedTarget
    } else {
        AttemptPhase::AwaitTargetFree
    }
}

/// The state after one step (the action asked for is `spec_attempt_action`).
pub open spec fn spec_attempt_next(s: ResetAttempt, e: AttemptEvent) -> ResetAttempt {
    let fin = ResetAttempt { phase: AttemptPhase::Finished, ..s };
    match (s.phase, e) {
        (AttemptPhase::Finished, _) => fin,
        (_, AttemptEvent::Failed(_)) => fin,
        (AttemptPhase::AwaitSurvey, AttemptEvent::Surveyed { completion, startup, commit, owner }) => if completion || startup {
            ResetAttempt { phase: AttemptPhase::AwaitCompletion, completion_exists: completion, ..s }
        } else if commit {
            ResetAttempt { phase: AttemptPhase::AwaitCommit, ..s }
        } else if owner {
            ResetAttempt { phase: AttemptPhase::AwaitOwner, ..s }
        } else {
            ResetAttempt { phase: AttemptPhase::AwaitRoot, ..s }
        },
        (AttemptPhase::AwaitCompletion, AttemptEvent::CompletionRead(rec)) => if spec_commit_valid(rec.commit, s.request, s.nonce@) {
            ResetAttempt { phase: AttemptPhase::AwaitCompletedTarget, target_identity: rec.commit.target_identity, ..s }
        } else {
            fin
        },
        (AttemptPhase::AwaitCompletedTarget, AttemptEvent::Done) => if s.completion_exists {
            ResetAttempt { phase: AttemptPhase::AwaitMarkers, ..s }
        } else {
            ResetAttempt { phase: AttemptPhase::AwaitCompletionWrite, ..s }
        },
        (AttemptPhase::AwaitCompletionWrite, AttemptEvent::Done) => ResetAttempt { phase: AttemptPhase::AwaitMarkers, ..s },
        (AttemptPhase::AwaitMarkers, AttemptEvent::Done) => ResetAttempt { phase: AttemptPhase::AwaitCleanup, ..s },
        (AttemptPhase::AwaitCommit, AttemptEvent::CommitRead(rec)) => if spec_commit_valid(rec, s.request, s.nonce@) {
            ResetAttempt { phase: AttemptPhase::AwaitCommittedTarget, target_identity: rec.target_identity, ..s }
        } else {
            fin
        },
        (AttemptPhase::AwaitCommittedTarget, AttemptEvent::Done) => ResetAttempt { phase: AttemptPhase::AwaitCompletionWrite, ..s },
        (AttemptPhase::AwaitOwner, AttemptEvent::OwnerRead(o)) => if owner_fits(o, s.nonce@, None) {
            ResetAttempt { phase: AttemptPhase::AwaitStage, root: Some(o.root_identity), ..s }
        } else {
            fin
        },
        (AttemptPhase::AwaitRoot, AttemptEvent::RootOpened { identity, is_reparse, quarantine_exists }) => if is_reparse || quarantine_exists {
            fin
        } else {
            ResetAttempt { phase: AttemptPhase::AwaitOwnerWrite, root: Some(identity), ..s }
        },
        (AttemptPhase::AwaitOwnerWrite, AttemptEvent::Done) => ResetAttempt { phase: AttemptPhase::AwaitStage, ..s },
        (AttemptPhase::AwaitStage, AttemptEvent::StagePrepared { at_target, staging_identity }) => ResetAttempt {
            phase: AttemptPhase::AwaitCleanupSurvey,
            at_target,
            staging_identity,
            ..s
        },
        (AttemptPhase::AwaitCleanupSurvey, AttemptEvent::CleanupSurveyed { cleaned, deleting, quarantine }) => if cleaned {
            ResetAttempt { phase: AttemptPhase::AwaitCleaned, quarantine_present: quarantine, ..s }
        } else if s.at_target {
            fin
        } else if deleting {
            ResetAttempt { phase: AttemptPhase::AwaitDeleting, quarantine_present: quarantine, ..s }
        } else {
            ResetAttempt { phase: AttemptPhase::AwaitFreshQuarantine, quarantine_present: quarantine, ..s }
        },
        (AttemptPhase::AwaitCleaned, AttemptEvent::OwnerRead(o)) => if owner_fits(o, s.nonce@, s.root) && !s.quarantine_present {
            ResetAttempt { phase: place_phase(s), ..s }
        } else {
            fin
        },
        (AttemptPhase::AwaitDeleting, AttemptEvent::OwnerRead(o)) => if !owner_fits(o, s.nonce@, s.root) {
            fin
        } else if s.quarantine_present {
            ResetAttempt { phase: AttemptPhase::AwaitResumedQuarantine, ..s }
        } else {
            ResetAttempt { phase: AttemptPhase::AwaitTargetGone, ..s }
        },
        (AttemptPhase::AwaitTargetGone, AttemptEvent::TargetInspected { exists }) => if exists {
            fin
        } else {
            ResetAttempt { phase: AttemptPhase::AwaitDeletedWrite, ..s }
        },
        (AttemptPhase::AwaitFreshQuarantine, AttemptEvent::Done) => ResetAttempt { phase: AttemptPhase::AwaitDeletingWrite, ..s },
        (AttemptPhase::AwaitDeletingWrite, AttemptEvent::Done) => ResetAttempt { phase: AttemptPhase::AwaitQuarantineRemoval, ..s },
        (AttemptPhase::AwaitResumedQuarantine, AttemptEvent::Done) => ResetAttempt { phase: AttemptPhase::AwaitQuarantineRemoval, ..s },
        (AttemptPhase::AwaitQuarantineRemoval, AttemptEvent::Done) => ResetAttempt { phase: AttemptPhase::AwaitDeletedWrite, ..s },
        (AttemptPhase::AwaitDeletedWrite, AttemptEvent::Done) => ResetAttempt { phase: place_phase(s), ..s },
        (AttemptPhase::AwaitTargetFree, AttemptEvent::TargetInspected { exists }) => if exists {
            fin
        } else {
            ResetAttempt { phase: AttemptPhase::AwaitRename, ..s }
        },
        (AttemptPhase::AwaitRename, AttemptEvent::Done) => ResetAttempt { phase: AttemptPhase::AwaitStagedTarget, ..s },
        (AttemptPhase::AwaitStagedTarget, AttemptEvent::Done) => ResetAttempt {
            phase: AttemptPhase::AwaitCommitWrite,
            target_identity: s.staging_identity,
            ..s
        },
        (AttemptPhase::AwaitCommitWrite, AttemptEvent::Done) => ResetAttempt { phase: AttemptPhase::AwaitCommittedTarget, ..s },
        (AttemptPhase::AwaitCleanup, AttemptEvent::Done) => fin,
        _ => fin,
    }
}

/// The action asked for on entering a phase.
pub open spec fn spec_phase_action(s: ResetAttempt) -> AttemptAction {
    match s.phase {
        AttemptPhase::AwaitSurvey => AttemptAction::Survey,
        AttemptPhase::AwaitCompletion => AttemptAction::ReadCompletion,
        AttemptPhase::AwaitCompletedTarget => AttemptAction::VerifyTarget(s.target_identity),
        AttemptPhase::AwaitCompletionWrite => AttemptAction::WriteRecord(ResetStateStep::Completed),
        AttemptPhase::AwaitMarkers => AttemptAction::ValidateMarkers,
        AttemptPhase::AwaitCleanup => AttemptAction::Cleanup,
        AttemptPhase::AwaitCommit => AttemptAction::ReadCommit,
        AttemptPhase::AwaitCommittedTarget => AttemptAction::VerifyEmptyTarget(s.target_identity),
        AttemptPhase::AwaitOwner => AttemptAction::ReadRecord(ResetRecord::Owner),
        AttemptPhase::AwaitRoot => AttemptAction::OpenRoot,
        AttemptPhase::AwaitOwnerWrite => AttemptAction::WriteRecord(ResetStateStep::Owner),
        AttemptPhase::AwaitStage => AttemptAction::PrepareStage,
        AttemptPhase::AwaitCleanupSurvey => AttemptAction::SurveyCleanup,
        AttemptPhase::AwaitCleaned => AttemptAction::ReadRecord(ResetRecord::Cleaned),
        AttemptPhase::AwaitDeleting => AttemptAction::ReadRecord(ResetRecord::Deleting),
        AttemptPhase::AwaitFreshQuarantine => AttemptAction::OpenQuarantine,
        AttemptPhase::AwaitDeletingWrite => AttemptAction::WriteRecord(ResetStateStep::Deleting),
        AttemptPhase::AwaitResumedQuarantine => AttemptAction::OpenQuarantine,
        AttemptPhase::AwaitQuarantineRemoval => AttemptAction::RemoveQuarantine,
        AttemptPhase::AwaitTargetGone => AttemptAction::InspectTarget,
        AttemptPhase::AwaitDeletedWrite => AttemptAction::WriteRecord(ResetStateStep::Deleted),
        AttemptPhase::AwaitTargetFree => AttemptAction::InspectTarget,
        AttemptPhase::AwaitRename => AttemptAction::RenameStage,
        AttemptPhase::AwaitStagedTarget => AttemptAction::VerifyEmptyTarget(s.staging_identity),
        AttemptPhase::AwaitCommitWrite => AttemptAction::WriteRecord(ResetStateStep::Committed),
        AttemptPhase::Finished => AttemptAction::Finish(Err(DiagnosticError::InvalidResetRequest)),
    }
}

/// How a finishing step ends the attempt: success after the clean-up, the
/// reported failure, a conflict where something else stands in the way, an
/// invalid request otherwise.
pub open spec fn spec_finish(s: ResetAttempt, e: AttemptEvent) -> Result<(), DiagnosticError> {
    match (s.phase, e) {
        (AttemptPhase::Finished, _) => Err(DiagnosticError::InvalidResetRequest),
        (_, AttemptEvent::Failed(err)) => Err(err),
        (AttemptPhase::AwaitCleanup, AttemptEvent::Done) => Ok(()),
        (AttemptPhase::AwaitRoot, AttemptEvent::RootOpened { .. }) => Err(DiagnosticError::ResetTargetConflict),
        (AttemptPhase::AwaitTargetGone, AttemptEvent::TargetInspected { .. }) => Err(DiagnosticError::ResetTargetConflict),
        (AttemptPhase::AwaitTargetFree, AttemptEvent::TargetInspected { .. }) => Err(DiagnosticError::ResetTargetConflict),
        _ => Err(DiagnosticError::InvalidResetRequest),
    }
}


impl ResetAttempt {
    fn finish(&mut self, result: Result<(), DiagnosticError>) -> (r: AttemptAction)
        ensures
            *final(self) == (ResetAttempt { phase: AttemptPhase::Finished, ..*old(self) }),
            r == AttemptAction::Finish(result),
    {
        self.phase = AttemptPhase::Finished;
        AttemptAction::Finish(result)
    }

    fn enter(&mut self, phase: AttemptPhase) -> (r: AttemptAction)
        requires
            phase != AttemptPhase::Finished,
        ensures
            *final(self) == (ResetAttempt { phase, ..*old(self) }),
            r == spec_phase_action(*final(self)),
    {
        self.phase = phase;
        match phase {
            AttemptPhase::AwaitSurvey => AttemptAction::Survey,
            AttemptPhase::AwaitCompletion => AttemptAction::ReadCompletion,
            AttemptPhase::AwaitCompletedTarget => AttemptAction::VerifyTarget(self.target_identity),
            AttemptPhase::AwaitCompletionWrite => AttemptAction::WriteRecord(ResetStateStep::Completed),
            AttemptPhase::AwaitMarkers => AttemptAction::ValidateMarkers,
            AttemptPhase::AwaitCleanup => AttemptAction::Cleanup,
            AttemptPhase::AwaitCommit => AttemptAction::ReadCommit,
            AttemptPhase::AwaitCommittedTarget => AttemptAction::VerifyEmptyTarget(self.target_identity),
            AttemptPhase::AwaitOwner => AttemptAction::ReadRecord(ResetRecord::Owner),
            AttemptPhase::AwaitRoot => AttemptAction::OpenRoot,
            AttemptPhase::AwaitOwnerWrite => AttemptAction::WriteRecord(ResetStateStep::Owner),
            AttemptPhase::AwaitStage => AttemptAction::PrepareStage,
            AttemptPhase::AwaitCleanupSurvey => AttemptAction::SurveyCleanup,
            AttemptPhase::AwaitCleaned => AttemptAction::ReadRecord(ResetRecord::Cleaned),
            AttemptPhase::AwaitDeleting => AttemptAction::ReadRecord(ResetRecord::Deleting),
            AttemptPhase::AwaitFreshQuarantine => AttemptAction::OpenQuarantine,
            AttemptPhase::AwaitDeletingWrite => AttemptAction::WriteRecord(ResetStateStep::Deleting),
            AttemptPhase::AwaitResumedQuarantine => AttemptAction::OpenQuarantine,
            AttemptPhase::AwaitQuarantineRemoval => AttemptAction::RemoveQuarantine,
            AttemptPhase::AwaitTargetGone => AttemptAction::InspectTarget,
            AttemptPhase::AwaitDeletedWrite => AttemptAction::WriteRecord(ResetStateStep::Deleted),
            AttemptPhase::AwaitTargetFree => AttemptAction::InspectTarget,
            AttemptPhase::AwaitRename => AttemptAction::RenameStage,
            AttemptPhase::AwaitStagedTarget => AttemptAction::VerifyEmptyTarget(self.staging_identity),
            AttemptPhase::AwaitCommitWrite => AttemptAction::WriteRecord(ResetStateStep::Committed),
            AttemptPhase::Finished => AttemptAction::Finish(Err(DiagnosticError::InvalidResetRequest)),
        }
    }

    fn place(&mut self) -> (r: AttemptAction)
        ensures
            *final(self) == (ResetAttempt { phase: place_phase(*old(self)), ..*old(self) }),
            r == spec_phase_action(*final(self)),
    {
        if self.at_target {
            self.enter(AttemptPhase::AwaitStagedTarget)
        } else {
            self.enter(AttemptPhase::AwaitTargetFree)
        }
    }

    /// Takes how the last action went and returns the next action.
    pub fn step(&mut self, event: AttemptEvent) -> (r: AttemptAction)
        ensures
            *final(self) == spec_attempt_next(*old(self), event),
            final(self).phase == AttemptPhase::Finished ==> r == AttemptAction::Finish(
                spec_finish(*old(self), event),
            ),
            final(self).phase != AttemptPhase::Finished ==> r == spec_phase_action(*final(self)),
    {
        if self.phase == AttemptPhase::Finished {
            return self.finish(Err(DiagnosticError::InvalidResetRequest));
        }
        let phase = self.phase;
        match event {
            AttemptEvent::Failed(err) => self.finish(Err(err)),
            AttemptEvent::Surveyed { completion, startup, commit, owner } => {
                if phase != AttemptPhase::AwaitSurvey {
                    self.finish(Err(DiagnosticError::InvalidResetRequest))
                } else if completion || startup {
                    self.completion_exists = completion;
                    self.enter(AttemptPhase::AwaitCompletion)
                } else if commit {
                    self.enter(AttemptPhase::AwaitCommit)
                } else if owner {
                    self.enter(AttemptPhase::AwaitOwner)
                } else {
                    self.enter(AttemptPhase::AwaitRoot)
                }
            },
            AttemptEvent::CompletionRead(rec) => {
                if phase != AttemptPhase::AwaitCompletion {
                    self.finish(Err(DiagnosticError::InvalidResetRequest))
                } else if validate_commit(&rec.commit, &self.request, self.nonce.as_str()).is_ok() {
                    self.target_identity = rec.commit.target_identity;
                    self.enter(AttemptPhase::AwaitCompletedTarget)
                } else {
                    self.finish(Err(DiagnosticError::InvalidResetRequest))
                }
            },
            AttemptEvent::CommitRead(rec) => {
                if phase != AttemptPhase::AwaitCommit {
                    self.finish(Err(DiagnosticError::InvalidResetRequest))
                } else if validate_commit(&rec, &self.request, self.nonce.as_str()).is_ok() {
                    self.target_identity = rec.target_identity;
                    self.enter(AttemptPhase::AwaitCommittedTarget)
                } else {
                    self.finish(Err(DiagnosticError::InvalidResetRequest))
                }
            },
            AttemptEvent::OwnerRead(o) => {
                if phase == AttemptPhase::AwaitOwner {
                    if owner_fits_exec(&o, self.nonce.as_str(), None) {
                        self.root = Some(o.root_identity);
                        self.enter(AttemptPhase::AwaitStage)
                    } else {
                        self.finish(Err(DiagnosticError::InvalidResetRequest))
                    }
                } else if phase == AttemptPhase::AwaitCleaned {
                    if owner_fits_exec(&o, self.nonce.as_str(), self.root) && !self.quarantine_present {
                        self.place()
                    } else {
                        self.finish(Err(DiagnosticError::InvalidResetRequest))
                    }
                } else if phase == AttemptPhase::AwaitDeleting {
                    if !owner_fits_exec(&o, self.nonce.as_str(), self.root) {
                        self.finish(Err(DiagnosticError::InvalidResetRequest))
                    } else if self.quarantine_present {
                        self.enter(AttemptPhase::AwaitResumedQuarantine)
                    } else {
                        self.enter(AttemptPhase::AwaitTargetGone)
                    }
                } else {
                    self.finish(Err(DiagnosticError::InvalidResetRequest))
                }
            },
            AttemptEvent::RootOpened { identity, is_reparse, quarantine_exists } => {
                if phase != AttemptPhase::AwaitRoot {
                    self.finish(Err(DiagnosticError::InvalidResetRequest))
                } else if is_reparse || quarantine_exists {
                    self.finish(Err(DiagnosticError::ResetTargetConflict))
                } else {
                    self.root = Some(identity);
                    self.enter(AttemptPhase::AwaitOwnerWrite)
                }
            },
            AttemptEvent::StagePrepared { at_target, staging_identity } => {
                if phase != AttemptPhase::AwaitStage {
                    self.finish(Err(DiagnosticError::InvalidResetRequest))
                } else {
                    self.at_target = at_target;
                    self.staging_identity = staging_identity;
                    self.enter(AttemptPhase::AwaitCleanupSurvey)
                }
            },
            AttemptEvent::CleanupSurveyed { cleaned, deleting, quarantine } => {
                if phase != AttemptPhase::AwaitCleanupSurvey {
                    self.finish(Err(DiagnosticError::InvalidResetRequest))
                } else if cleaned {
                    self.quarantine_present = quarantine;
                    self.enter(AttemptPhase::AwaitCleaned)
                } else if self.at_target {
                    self.finish(Err(DiagnosticError::InvalidResetRequest))
                } else if deleting {
                    self.quarantine_present = quarantine;
                    self.enter(AttemptPhase::AwaitDeleting)
                } else {
                    self.quarantine_present = quarantine;
                    self.enter(AttemptPhase::AwaitFreshQuarantine)
                }
            },
            AttemptEvent::TargetInspected { exists } => {
                if phase == AttemptPhase::AwaitTargetGone {
                    if exists {
                        self.finish(Err(DiagnosticError::ResetTargetConflict))
                    } else {
                        self.enter(AttemptPhase::AwaitDeletedWrite)
                    }
                } else if phase == AttemptPhase::AwaitTargetFree {
                    if exists {
                        self.finish(Err(DiagnosticError::ResetTargetConflict))
                    } else {
                        self.enter(AttemptPhase::AwaitRename)
                    }
                } else {
                    self.finish(Err(DiagnosticError::InvalidResetRequest))
                }
            },
            AttemptEvent::Done => {
                match phase {
                    AttemptPhase::AwaitCompletedTarget => {
                        if self.completion_exists {
                            self.enter(AttemptPhase::AwaitMarkers)
                        } else {
                            self.enter(AttemptPhase::AwaitCompletionWrite)
                        }
                    },
                    AttemptPhase::AwaitCompletionWrite => self.enter(AttemptPhase::AwaitMarkers),
                    AttemptPhase::AwaitMarkers => self.enter(AttemptPhase::AwaitCleanup),
                    AttemptPhase::AwaitCleanup => self.finish(Ok(())),
                    AttemptPhase::AwaitCommittedTarget => self.enter(AttemptPhase::AwaitCompletionWrite),
                    AttemptPhase::AwaitOwnerWrite => self.enter(AttemptPhase::AwaitStage),
                    AttemptPhase::AwaitFreshQuarantine => self.enter(AttemptPhase::AwaitDeletingWrite),
                    AttemptPhase::AwaitDeletingWrite => self.enter(AttemptPhase::AwaitQuarantineRemoval),
                    AttemptPhase::AwaitResumedQuarantine => self.enter(AttemptPhase::AwaitQuarantineRemoval),
                    AttemptPhase::AwaitQuarantineRemoval => self.enter(AttemptPhase::AwaitDeletedWrite),
                    AttemptPhase::AwaitDeletedWrite => self.place(),
                    AttemptPhase::AwaitRename => self.enter(AttemptPhase::AwaitStagedTarget),
                    AttemptPhase::AwaitStagedTarget => {
                        self.target_identity = self.staging_identity;
                        self.enter(AttemptPhase::AwaitCommitWrite)
                    },
                    AttemptPhase::AwaitCommitWrite => self.enter(AttemptPhase::AwaitCommittedTarget),
                    _ => self.finish(Err(DiagnosticError::InvalidResetRequest)),
                }
            },
        }
    }
}

/// The phases of an attempt that found the reset committed or completed.
pub open spec fn finishing_branch(p: AttemptPhase) -> bool {
    p == AttemptPhase::AwaitCompletion || p == AttemptPhase::AwaitCompletedTarget || p
        == AttemptPhase::AwaitCompletionWrite || p == AttemptPhase::AwaitMarkers || p
        == AttemptPhase::AwaitCleanup || p == AttemptPhase::AwaitCommit || p
        == AttemptPhase::AwaitCommittedTarget || p == AttemptPhase::Finished
}

/// A committed reset is only finished: once an attempt finds the commit or
/// completion record, it never again deletes, moves or stages a directory.
pub proof fn law_committed_resets_are_only_finished(s: ResetAttempt, e: AttemptEvent)
    requires
        finishing_branch(s.phase),
    ensures
        finishing_branch(spec_attempt_next(s, e).phase),
{
}

/// The staged directory is moved into place only after the target was seen
/// free, and it is committed only after it was checked empty at the target.
pub proof fn law_stage_is_placed_only_when_free(s: ResetAttempt, e: AttemptEvent)
    ensures
        spec_attempt_next(s, e).phase == AttemptPhase::AwaitRename ==> s.phase
            == AttemptPhase::AwaitTargetFree && e matches AttemptEvent::TargetInspected { exists: false },
        spec_attempt_next(s, e).phase == AttemptPhase::AwaitCommitWrite ==> s.phase
            == AttemptPhase::AwaitStagedTarget && spec_attempt_next(s, e).target_identity
            == s.staging_identity,
{
}

/// The phases in which the attempt owns the directory it resets.
pub open spec fn owned_phase(p: AttemptPhase) -> bool {
    p == AttemptPhase::AwaitOwnerWrite || p == AttemptPhase::AwaitStage || p
        == AttemptPhase::AwaitCleanupSurvey || p == AttemptPhase::AwaitCleaned || p
        == AttemptPhase::AwaitDeleting || p == AttemptPhase::AwaitFreshQuarantine || p
        == AttemptPhase::AwaitDeletingWrite || p == AttemptPhase::AwaitResumedQuarantine || p
        == AttemptPhase::AwaitQuarantineRemoval || p == AttemptPhase::AwaitTargetGone || p
        == AttemptPhase::AwaitDeletedWrite || p == AttemptPhase::AwaitTargetFree || p
        == AttemptPhase::AwaitRename || p == AttemptPhase::AwaitStagedTarget || p
        == AttemptPhase::AwaitCommitWrite
}

/// What every state of an attempt satisfies: it knows the root it owns in
/// every phase that works on the directory.
pub open spec fn attempt_inv(s: ResetAttempt) -> bool {
    owned_phase(s.phase) ==> s.root is Some
}

/// Nothing is deleted, moved or staged before the attempt owns the
/// directory: every step keeps the invariant, an attempt starts without
/// owning anything, and the quarantine is touched only in owned phases.
pub proof fn law_deletion_needs_ownership(s: ResetAttempt, e: AttemptEvent)
    requires
        attempt_inv(s),
    ensures
        attempt_inv(spec_attempt_next(s, e)),
        (spec_attempt_next(s, e).phase == AttemptPhase::AwaitFreshQuarantine || spec_attempt_next(
            s,
            e,
        ).phase == AttemptPhase::AwaitResumedQuarantine) ==> spec_attempt_next(s, e).root is Some,
{
}


/// How many steps an attempt in this phase may still take, at most.
pub open spec fn attempt_rank(p: AttemptPhase) -> int {
    match p {
        AttemptPhase::AwaitSurvey => 30,
        AttemptPhase::AwaitOwner => 28,
        AttemptPhase::AwaitRoot => 28,
        AttemptPhase::AwaitOwnerWrite => 27,
        AttemptPhase::AwaitStage => 26,
        AttemptPhase::AwaitCleanupSurvey => 25,
        AttemptPhase::AwaitCleaned => 24,
        AttemptPhase::AwaitDeleting => 24,
        AttemptPhase::AwaitFreshQuarantine => 23,
        AttemptPhase::AwaitDeletingWrite => 22,
        AttemptPhase::AwaitResumedQuarantine => 22,
        AttemptPhase::AwaitQuarantineRemoval => 21,
        AttemptPhase::AwaitTargetGone => 21,
        AttemptPhase::AwaitDeletedWrite => 20,
        AttemptPhase::AwaitTargetFree => 19,
        AttemptPhase::AwaitRename => 18,
        AttemptPhase::AwaitStagedTarget => 17,
        AttemptPhase::AwaitCommitWrite => 16,
        AttemptPhase::AwaitCommit => 16,
        AttemptPhase::AwaitCompletion => 16,
        AttemptPhase::AwaitCommittedTarget => 15,
        AttemptPhase::AwaitCompletedTarget => 15,
        AttemptPhase::AwaitCompletionWrite => 14,
        AttemptPhase::AwaitMarkers => 13,
        AttemptPhase::AwaitCleanup => 12,
        AttemptPhase::Finished => 0,
    }
}

/// The attempt after a run of events, one step each.
pub open spec fn attempt_run(s: ResetAttempt, events: Seq<AttemptEvent>) -> ResetAttempt
    decreases events.len(),
{
    if events.len() == 0 {
        s
    } else {
        attempt_run(spec_attempt_next(s, events[0]), events.drop_first())
    }
}

/// Every step of an attempt that does not end it brings it closer to its
/// end: an attempt never loops.
pub proof fn law_attempt_steps_make_progress(s: ResetAttempt, e: AttemptEvent)
    ensures
        spec_attempt_next(s, e).phase == AttemptPhase::Finished || attempt_rank(
            spec_attempt_next(s, e).phase,
        ) < attempt_rank(s.phase),
{
}

proof fn lemma_attempt_run_rank(s: ResetAttempt, events: Seq<AttemptEvent>)
    ensures
        attempt_run(s, events).phase == AttemptPhase::Finished || attempt_rank(
            attempt_run(s, events).phase,
        ) <= attempt_rank(s.phase) - events.len(),
    decreases events.len(),
{
    if events.len() > 0 {
        law_attempt_steps_make_progress(s, events[0]);
        let next = spec_attempt_next(s, events[0]);
        lemma_attempt_run_rank(next, events.drop_first());
        if next.phase == AttemptPhase::Finished {
            lemma_finished_stays(next, events.drop_first());
        }
    }
}

proof fn lemma_finished_stays(s: ResetAttempt, events: Seq<AttemptEvent>)
    requires
        s.phase == AttemptPhase::Finished,
    ensures
        attempt_run(s, events).phase == AttemptPhase::Finished,
    decreases events.len(),
{
    if events.len() > 0 {
        lemma_finished_stays(spec_attempt_next(s, events[0]), events.drop_first());
    }
}

/// An attempt ends, successfully or with an error, within 30 steps of its
/// start, whatever the file system reports; with the worker's bound on
/// attempts (`law_reset_retries_are_bounded`), a reset is retried a bounded
/// number of times before the worker stops.
pub proof fn law_attempts_end_within_bounded_steps(s: ResetAttempt, events: Seq<AttemptEvent>)
    requires
        s.phase == AttemptPhase::AwaitSurvey,
        events.len() >= 30,
    ensures
        attempt_run(s, events).phase == AttemptPhase::Finished,
{
    lemma_attempt_run_rank(s, events);
}
} // verus!
