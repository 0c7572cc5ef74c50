//! Preparing the empty directory a reset puts in place of the application
//! data, as a state machine: a stage recorded by an earlier attempt is
//! checked and reopened; otherwise the directory to reset is checked, an
//! empty directory is created under a fresh name inside it, recorded, and
//! moved beside it. The caller performs each action and reports how it went.
use vstd::prelude::*;

use crate::diagnostics::{
    is_lower_hex, lemma_hex_lower_is_nonce, spec_valid_reset_nonce, spec_valid_staging_name,
    staging_prefix, valid_reset_nonce, valid_reset_staging_name, DiagnosticError, FileIdentity,
};
use crate::paths::is_separator;
use crate::text::{chars_of, extend_chars, string_from_chars};

verus! {

broadcast use vstd::string::group_string_axioms;

/// How many fresh staging names are tried before preparing gives up.
pub const MAX_STAGING_NAMES: usize = 32;

/// The record of a prepared stage.
#[derive(Debug, Clone)]
pub struct ResetStageRecord {
    pub nonce: String,
    pub staging_name: String,
    pub staging_identity: FileIdentity,
}

/// A prepared stage: whether it already stands at the target, and its
/// identity.
#[derive(Debug, Clone, Copy, PartialEq, Eq, Structural)]
pub struct PreparedStage {
    pub at_target: bool,
    pub staging_identity: FileIdentity,
}

#[derive(Debug, Clone, Copy, PartialEq, Eq, Structural)]
pub enum StagePhase {
    AwaitSurvey,
    AwaitRecord,
    AwaitRecordedStage,
    AwaitRoot,
    AwaitCreate,
    AwaitRecordWrite,
    AwaitRename,
    AwaitStagedCheck,
    Finished,
}

/// A stage being prepared for the reset with this nonce, of the directory
/// whose identity the owner record holds.
pub struct StagePrep {
    pub nonce: String,
    pub root: FileIdentity,
    pub phase: StagePhase,
    /// How many names were tried.
    pub tries: usize,
    /// The identity of the created directory, once created.
    pub staging_identity: FileIdentity,
}

#[derive(Debug)]
pub enum StageEvent {
    Done,
    Failed(DiagnosticError),
    /// Whether a stage record exists.
    Surveyed { record_exists: bool },
    RecordRead(ResetStageRecord),
    /// The recorded stage was reopened and checked.
    RecordedStageOpened(PreparedStage),
    /// The directory to reset was opened for renaming.
    RootOpened { identity: FileIdentity, is_reparse: bool, is_directory: bool, quarantine_exists: bool },
    /// The name was taken, inside the directory or beside it.
    NameTaken,
    /// The empty directory was created and opened.
    Created { identity: FileIdentity },
}

#[derive(Debug)]
pub enum StageAction {
    SurveyStage,
    ReadStageRecord,
    /// Reopen and check the recorded stage.
    OpenRecordedStage,
    OpenRoot,
    /// Create an empty directory with this name inside the directory to
    /// reset, unless the name is taken there or beside it.
    CreateStage(String),
    /// Write the stage record: nonce, the name last created, and its identity.
    WriteStageRecord,
    /// Move the created directory beside the one to reset.
    RenameToStaging,
    /// Check the moved directory is the empty one with this identity.
    VerifyStaging(FileIdentity),
    Finish(Result<PreparedStage, DiagnosticError>),
}

proof fn lemma_staging_name(nonce: Seq<char>, hex: Seq<char>)
    requires
        spec_valid_reset_nonce(nonce),
        spec_valid_reset_nonce(hex),
    ensures
        spec_valid_staging_name(nonce, staging_prefix(nonce) + hex),
{
    reveal_strlit(".com.cybereun.everyfile-reset-empty-");
    let prefix = staging_prefix(nonce);
    let name = prefix + hex;
    assert(prefix.is_prefix_of(name)) by {
        assert(name.subrange(0, prefix.len() as int) =~= prefix);
    }
    assert(name.skip(prefix.len() as int) =~= hex);
    assert forall|i: int| 0 <= i < name.len() implies !is_separator(#[trigger] name[i]) by {
        let head = ".com.cybereun.everyfile-reset-empty-"@;
        if i < head.len() {
            assert(name[i] == head[i]);
        } else if i < head.len() + nonce.len() {
            assert(name[i] == nonce[i - head.len()]);
            assert(is_lower_hex(nonce[i - head.len()]));
        } else if i < prefix.len() {
            assert(name[i] == '-');
        } else {
            assert(name[i] == hex[i - prefix.len()]);
            assert(is_lower_hex(hex[i - prefix.len()]));
        }
    }
}

/// A fresh staging name: the staging prefix of the nonce and thirty-two
/// random lower-case hex digits.
pub fn new_staging_name(nonce: &str) -> (r: String)
    requires
        spec_valid_reset_nonce(nonce@),
    ensures
        spec_valid_staging_name(nonce@, r@),
{
    let mut out = chars_of(".com.cybereun.everyfile-reset-empty-");
    extend_chars(&mut out, chars_of(nonce).as_slice());
    out.push('-');
    let hex = crate::indexing::random_id();
    proof {
        let bytes = choose|bytes: Seq<u8>| bytes.len() == 16 && hex@ == crate::indexing::hex_lower(bytes);
        lemma_hex_lower_is_nonce(bytes);
        reveal_strlit(".com.cybereun.everyfile-reset-empty-");
    }
    let ghost before = out@;
    extend_chars(&mut out, chars_of(hex.as_str()).as_slice());
    proof {
        assert(before =~= staging_prefix(nonce@));
        lemma_staging_name(nonce@, hex@);
        assert(out@ =~= staging_prefix(nonce@) + hex@);
    }
    string_from_chars(out.as_slice())
}

/// Starts preparing a stage for the owner of the directory `root`.
pub fn begin_stage(nonce: String, root: FileIdentity) -> (r: Result<(StagePrep, StageAction), DiagnosticError>)
    ensures
        spec_valid_reset_nonce(nonce@) ==> (r matches Ok((p, a)) && p.phase == StagePhase::AwaitSurvey
            && p.nonce == nonce && p.root == root && p.tries == 0 && a is SurveyStage),
        !spec_valid_reset_nonce(nonce@) ==> r matches Err(DiagnosticError::InvalidResetRequest),
{
    if !valid_reset_nonce(nonce.as_str()) {
        return Err(DiagnosticError::InvalidResetRequest);
    }
    Ok(
        (
            StagePrep {
                nonce,
                root,
                phase: StagePhase::AwaitSurvey,
                tries: 0,
                staging_identity: FileIdentity { volume: 0, index: 0 },
            },
            StageAction::SurveyStage,
        ),
    )
}

/// Whether a recorded stage belongs to this reset.
pub open spec fn record_fits(r: ResetStageRecord, nonce: Seq<char>) -> bool {
    r.nonce@ == nonce && spec_valid_staging_name(nonce, r.staging_name@)
}

/// Whether the directory to reset may be staged: it is still the owned
/// directory, a plain directory, and nothing is in quarantine yet.
pub open spec fn root_fits(root: FileIdentity, identity: FileIdentity, is_reparse: bool, is_directory: bool, quarantine_exists: bool) -> bool {
    identity == root && !is_reparse && is_directory && !quarantine_exists
}

/// The phase after one step and how the preparation ends when it does.
pub open spec fn spec_stage_next(s: StagePrep, e: StageEvent) -> (StagePhase, Option<Result<PreparedStage, DiagnosticError>>) {
    let invalid = Some(Err(DiagnosticError::InvalidResetRequest));
    match (s.phase, e) {
        (StagePhase::Finished, _) => (StagePhase::Finished, invalid),
        (_, StageEvent::Failed(err)) => (StagePhase::Finished, Some(Err(err))),
        (StagePhase::AwaitSurvey, StageEvent::Surveyed { record_exists }) => if record_exists {
            (StagePhase::AwaitRecord, None)
        } else {
            (StagePhase::AwaitRoot, None)
        },
        (StagePhase::AwaitRecord, StageEvent::RecordRead(r)) => if record_fits(r, s.nonce@) {
            (StagePhase::AwaitRecordedStage, None)
        } else {
            (StagePhase::Finished, invalid)
        },
        (StagePhase::AwaitRecordedStage, StageEvent::RecordedStageOpened(p)) => (StagePhase::Finished, Some(Ok(p))),
        (StagePhase::AwaitRoot, StageEvent::RootOpened { identity, is_reparse, is_directory, quarantine_exists }) => if root_fits(
            s.root,
            identity,
            is_reparse,
            is_directory,
            quarantine_exists,
        ) {
            (StagePhase::AwaitCreate, None)
        } else {
            (StagePhase::Finished, Some(Err(DiagnosticError::ResetTargetConflict)))
        },
        (StagePhase::AwaitCreate, StageEvent::NameTaken) => if s.tries < MAX_STAGING_NAMES {
            (StagePhase::AwaitCreate, None)
        } else {
            (StagePhase::Finished, invalid)
        },
        (StagePhase::AwaitCreate, StageEvent::Created { identity }) => (StagePhase::AwaitRecordWrite, None),
        (StagePhase::AwaitRecordWrite, StageEvent::Done) => (StagePhase::AwaitRename, None),
        (StagePhase::AwaitRename, StageEvent::Done) => (StagePhase::AwaitStagedCheck, None),
        (StagePhase::AwaitStagedCheck, StageEvent::Done) => (
            StagePhase::Finished,
            Some(Ok(PreparedStage { at_target: false, staging_identity: s.staging_identity })),
        ),
        _ => (StagePhase::Finished, invalid),
    }
}

/// The action asked for on entering a phase other than the end.
pub open spec fn stage_action_fits(s: StagePrep, a: StageAction) -> bool {
    match s.phase {
        StagePhase::AwaitRecord => a is ReadStageRecord,
        StagePhase::AwaitRecordedStage => a is OpenRecordedStage,
        StagePhase::AwaitRoot => a is OpenRoot,
        StagePhase::AwaitCreate => a matches StageAction::CreateStage(name) && spec_valid_staging_name(s.nonce@, name@),
        StagePhase::AwaitRecordWrite => a is WriteStageRecord,
        StagePhase::AwaitRename => a is RenameToStaging,
        StagePhase::AwaitStagedCheck => a == StageAction::VerifyStaging(s.staging_identity),
        _ => a is SurveyStage,
    }
}

impl StagePrep {
    fn end(&mut self, result: Result<PreparedStage, DiagnosticError>) -> (r: StageAction)
        ensures
            final(self).phase == StagePhase::Finished,
            final(self).nonce == old(self).nonce,
            final(self).root == old(self).root,
            final(self).tries == old(self).tries,
            final(self).staging_identity == old(self).staging_identity,
            r == StageAction::Finish(result),
    {
        self.phase = StagePhase::Finished;
        StageAction::Finish(result)
    }

    fn try_name(&mut self) -> (r: StageAction)
        requires
            spec_valid_reset_nonce(old(self).nonce@),
            old(self).tries < MAX_STAGING_NAMES,
        ensures
            final(self).phase == StagePhase::AwaitCreate,
            final(self).nonce == old(self).nonce,
            final(self).root == old(self).root,
            final(self).tries == old(self).tries + 1,
            final(self).staging_identity == old(self).staging_identity,
            stage_action_fits(*final(self), r),
    {
        self.phase = StagePhase::AwaitCreate;
        self.tries = self.tries + 1;
        StageAction::CreateStage(new_staging_name(self.nonce.as_str()))
    }

    /// Takes how the last action went and returns the next action.
    pub fn step(&mut self, event: StageEvent) -> (r: StageAction)
        requires
            spec_valid_reset_nonce(old(self).nonce@),
            old(self).tries <= MAX_STAGING_NAMES,
        ensures
            final(self).nonce == old(self).nonce,
            final(self).root == old(self).root,
            final(self).tries <= MAX_STAGING_NAMES,
            final(self).phase == spec_stage_next(*old(self), event).0,
            spec_stage_next(*old(self), event).1 matches Some(result) ==> r == StageAction::Finish(result),
            spec_stage_next(*old(self), event).1 is None ==> stage_action_fits(*final(self), r),
            (old(self).phase == StagePhase::AwaitCreate && event is Created) ==> final(self).staging_identity
                == event->Created_identity,
            !(old(self).phase == StagePhase::AwaitCreate && event is Created) ==> final(self).staging_identity
                == old(self).staging_identity,
    {
        let phase = self.phase;
        if phase == StagePhase::Finished {
            return self.end(Err(DiagnosticError::InvalidResetRequest));
        }
        match event {
            StageEvent::Failed(err) => self.end(Err(err)),
            StageEvent::Surveyed { record_exists } => {
                if phase != StagePhase::AwaitSurvey {
                    self.end(Err(DiagnosticError::InvalidResetRequest))
                } else if record_exists {
                    self.phase = StagePhase::AwaitRecord;
                    StageAction::ReadStageRecord
                } else {
                    self.phase = StagePhase::AwaitRoot;
                    StageAction::OpenRoot
                }
            },
            StageEvent::RecordRead(rec) => {
                if phase != StagePhase::AwaitRecord {
                    self.end(Err(DiagnosticError::InvalidResetRequest))
                } else if crate::text::eq_chars(
                    chars_of(rec.nonce.as_str()).as_slice(),
                    chars_of(self.nonce.as_str()).as_slice(),
                ) && valid_reset_staging_name(self.nonce.as_str(), rec.staging_name.as_str()) {
                    self.phase = StagePhase::AwaitRecordedStage;
                    StageAction::OpenRecordedStage
                } else {
                    self.end(Err(DiagnosticError::InvalidResetRequest))
                }
            },
            StageEvent::RecordedStageOpened(p) => {
                if phase != StagePhase::AwaitRecordedStage {
                    self.end(Err(DiagnosticError::InvalidResetRequest))
                } else {
                    self.end(Ok(p))
                }
            },
            StageEvent::RootOpened { identity, is_reparse, is_directory, quarantine_exists } => {
                if phase != StagePhase::AwaitRoot {
                    self.end(Err(DiagnosticError::InvalidResetRequest))
                } else if identity == self.root && !is_reparse && is_directory && !quarantine_exists {
                    self.tries = 0;
                    self.try_name()
                } else {
                    self.end(Err(DiagnosticError::ResetTargetConflict))
                }
            },
            StageEvent::NameTaken => {
                if phase != StagePhase::AwaitCreate {
                    self.end(Err(DiagnosticError::InvalidResetRequest))
                } else if self.tries < MAX_STAGING_NAMES {
                    self.try_name()
                } else {
                    self.end(Err(DiagnosticError::InvalidResetRequest))
                }
            },
            StageEvent::Created { identity } => {
                if phase != StagePhase::AwaitCreate {
                    self.end(Err(DiagnosticError::InvalidResetRequest))
                } else {
                    self.staging_identity = identity;
                    self.phase = StagePhase::AwaitRecordWrite;
                    StageAction::WriteStageRecord
                }
            },
            StageEvent::Done => {
                if phase == StagePhase::AwaitRecordWrite {
                    self.phase = StagePhase::AwaitRename;
                    StageAction::RenameToStaging
                } else if phase == StagePhase::AwaitRename {
                    self.phase = StagePhase::AwaitStagedCheck;
                    StageAction::VerifyStaging(self.staging_identity)
                } else if phase == StagePhase::AwaitStagedCheck {
                    let id = self.staging_identity;
                    self.end(Ok(PreparedStage { at_target: false, staging_identity: id }))
                } else {
                    self.end(Err(DiagnosticError::InvalidResetRequest))
                }
            },
        }
    }
}

/// Preparing a stage never tries more than `MAX_STAGING_NAMES` names: a
/// taken name asks for another only while names remain, and a stage whose
/// record names another nonce or a malformed name is refused.
pub proof fn law_staging_names_are_bounded(s: StagePrep, e: StageEvent)
    ensures
        (s.phase == StagePhase::AwaitCreate && e is NameTaken && s.tries >= MAX_STAGING_NAMES)
            ==> spec_stage_next(s, e).0 == StagePhase::Finished,
        (s.phase == StagePhase::AwaitRecord && e is RecordRead && !record_fits(
            e->RecordRead_0,
            s.nonce@,
        )) ==> spec_stage_next(s, e) == (StagePhase::Finished, Some(
            Err::<PreparedStage, DiagnosticError>(DiagnosticError::InvalidResetRequest),
        )),
{
}

} // verus!
