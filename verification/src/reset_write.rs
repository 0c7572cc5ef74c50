//! Writing one record of a reset: the steps that publish a marker file
//! durably, as a state machine. The caller performs each action on the file
//! system and reports how it went; the machine decides what comes next.
use vstd::prelude::*;

use crate::diagnostics::{spec_valid_reset_nonce, valid_reset_nonce, DiagnosticError, FileIdentity};

verus! {

broadcast use vstd::string::group_string_axioms;

/// The largest record a reset writes, in bytes.
pub const MAX_RESET_STATE_BYTES: usize = 1024;

/// The reparse-point attribute of a file.
pub const FILE_ATTRIBUTE_REPARSE_POINT: u32 = 0x0000_0400;

/// The directory attribute of a file.
pub const FILE_ATTRIBUTE_DIRECTORY: u32 = 0x0000_0010;

/// What the write waits for: the result of the action it asked for last.
#[derive(Debug, Clone, Copy, PartialEq, Eq, Structural)]
pub enum StateWritePhase {
    AwaitCheck,
    AwaitCreate,
    AwaitHead,
    AwaitTail,
    AwaitTempSync,
    AwaitInspect,
    AwaitRename,
    AwaitDirectorySync,
    AwaitPublished,
    AwaitFileSync,
    AwaitFinalSync,
    Finished,
}

/// A record being written: where it stands, how many bytes it has, and the
/// identity of the temporary file once it was inspected.
#[derive(Debug, Clone, Copy, PartialEq, Eq, Structural)]
pub struct StateWrite {
    pub phase: StateWritePhase,
    pub len: usize,
    pub written: FileIdentity,
}

/// How the last action went.
#[derive(Debug)]
pub enum StateWriteEvent {
    /// The root was revalidated and the marker looked up.
    Checked { marker_exists: bool },
    /// The action succeeded.
    Done,
    /// The action failed with this error.
    Failed(DiagnosticError),
    /// The synced temporary file's identity and attributes.
    TempInspected { identity: FileIdentity, attributes: u32 },
    /// The published marker's identity and kind.
    PublishedInspected { identity: FileIdentity, is_reparse: bool, is_directory: bool },
}

/// What to do next.
#[derive(Debug)]
pub enum StateWriteAction {
    /// Revalidate the root and look whether the marker exists.
    CheckMarker,
    /// Create the temporary file, new, beside the marker.
    CreateTemp,
    /// Write the record's bytes `from..to` to the temporary file.
    WriteBytes { from: usize, to: usize },
    /// Flush the temporary file to disk.
    SyncTemp,
    /// Read the temporary file's identity and attributes.
    InspectTemp,
    /// Rename the temporary file, by its handle, to the marker.
    RenameToMarker,
    /// Flush the directory that holds the marker.
    SyncDirectory,
    /// Open the published marker and read its identity and kind.
    InspectPublished,
    /// Flush the published file again.
    SyncFile,
    /// The write is over.
    Finish(Result<(), DiagnosticError>),
}

/// Where the first write stops: half the record, at least one byte and one
/// byte short of all of it.
pub open spec fn split_point(len: usize) -> usize {
    (len / 2) as usize
}

/// Whether a record may be written: its marker lies directly in the local
/// application-data directory, the nonce is valid, and it has 2 to 1024
/// bytes.
pub open spec fn write_allowed(parent_is_local: bool, nonce: Seq<char>, len: usize) -> bool {
    parent_is_local && spec_valid_reset_nonce(nonce) && 2 <= len <= MAX_RESET_STATE_BYTES
}

/// Begins writing a record of `len` bytes.
pub fn begin_state_write(parent_is_local: bool, nonce: &str, len: usize) -> (r: Result<
    (StateWrite, StateWriteAction),
    DiagnosticError,
>)
    ensures
        write_allowed(parent_is_local, nonce@, len) ==> (r matches Ok((w, a)) && w.phase
            == StateWritePhase::AwaitCheck && w.len == len && a is CheckMarker),
        !write_allowed(parent_is_local, nonce@, len) ==> r matches Err(
            DiagnosticError::InvalidResetRequest,
        ),
{
    if !parent_is_local || !valid_reset_nonce(nonce) || len < 2 || len > MAX_RESET_STATE_BYTES {
        return Err(DiagnosticError::InvalidResetRequest);
    }
    Ok(
        (
            StateWrite {
                phase: StateWritePhase::AwaitCheck,
                len,
                written: FileIdentity { volume: 0, index: 0 },
            },
            StateWriteAction::CheckMarker,
        ),
    )
}

/// The kind of action the machine asks for next, and the phase it waits in.
pub open spec fn after_done(phase: StateWritePhase) -> StateWritePhase {
    match phase {
        StateWritePhase::AwaitCreate => StateWritePhase::AwaitHead,
        StateWritePhase::AwaitHead => StateWritePhase::AwaitTail,
        StateWritePhase::AwaitTail => StateWritePhase::AwaitTempSync,
        StateWritePhase::AwaitTempSync => StateWritePhase::AwaitInspect,
        StateWritePhase::AwaitRename => StateWritePhase::AwaitDirectorySync,
        StateWritePhase::AwaitDirectorySync => StateWritePhase::AwaitPublished,
        StateWritePhase::AwaitFileSync => StateWritePhase::AwaitFinalSync,
        _ => StateWritePhase::Finished,
    }
}

/// Whether a temporary file may be published: it is neither a reparse point
/// nor a directory.
pub open spec fn temp_is_plain(attributes: u32) -> bool {
    attributes & FILE_ATTRIBUTE_REPARSE_POINT == 0 && attributes & FILE_ATTRIBUTE_DIRECTORY == 0
}

/// One step of a write. `Ok(next)` is the phase after the step together
/// with the action asked for, described by `spec_action_fits`; a failure
/// ends the write with its error; an event the phase does not expect ends
/// it as an invalid request.
pub open spec fn spec_next_phase(w: StateWrite, e: StateWriteEvent) -> StateWritePhase {
    match (w.phase, e) {
        (StateWritePhase::Finished, _) => StateWritePhase::Finished,
        (_, StateWriteEvent::Failed(_)) => StateWritePhase::Finished,
        (StateWritePhase::AwaitCheck, StateWriteEvent::Checked { marker_exists }) => if marker_exists {
            StateWritePhase::Finished
        } else {
            StateWritePhase::AwaitCreate
        },
        (StateWritePhase::AwaitInspect, StateWriteEvent::TempInspected { identity, attributes }) => if temp_is_plain(
            attributes,
        ) {
            StateWritePhase::AwaitRename
        } else {
            StateWritePhase::Finished
        },
        (
            StateWritePhase::AwaitPublished,
            StateWriteEvent::PublishedInspected { identity, is_reparse, is_directory },
        ) => if identity == w.written && !is_reparse && !is_directory {
            StateWritePhase::AwaitFileSync
        } else {
            StateWritePhase::Finished
        },
        (phase, StateWriteEvent::Done) => after_done(phase),
        _ => StateWritePhase::Finished,
    }
}

/// The action asked for on entering a phase (`Finish` is described apart).
pub open spec fn action_for(phase: StateWritePhase, len: usize, a: StateWriteAction) -> bool {
    match phase {
        StateWritePhase::AwaitCreate => a is CreateTemp,
        StateWritePhase::AwaitHead => a == StateWriteAction::WriteBytes { from: 0, to: split_point(len) },
        StateWritePhase::AwaitTail => a == StateWriteAction::WriteBytes { from: split_point(len), to: len },
        StateWritePhase::AwaitTempSync => a is SyncTemp,
        StateWritePhase::AwaitInspect => a is InspectTemp,
        StateWritePhase::AwaitRename => a is RenameToMarker,
        StateWritePhase::AwaitDirectorySync => a is SyncDirectory,
        StateWritePhase::AwaitPublished => a is InspectPublished,
        StateWritePhase::AwaitFileSync => a is SyncFile,
        StateWritePhase::AwaitFinalSync => a is SyncDirectory,
        _ => a is Finish,
    }
}

/// How a finishing step ends the write: success after the final sync, the
/// reported failure, an existing marker as an I/O error, anything else as an
/// invalid request.
pub open spec fn finish_fits(w: StateWrite, e: StateWriteEvent, a: StateWriteAction) -> bool {
    match (w.phase, e) {
        (StateWritePhase::Finished, _) => a matches StateWriteAction::Finish(Err(
            DiagnosticError::InvalidResetRequest,
        )),
        (_, StateWriteEvent::Failed(err)) => a == StateWriteAction::Finish(Err(err)),
        (StateWritePhase::AwaitCheck, StateWriteEvent::Checked { .. }) => a matches StateWriteAction::Finish(
            Err(DiagnosticError::Io(m)),
        ) && m@ == "reset state marker already exists"@,
        (StateWritePhase::AwaitFinalSync, StateWriteEvent::Done) => a == StateWriteAction::Finish(
            Ok(()),
        ),
        _ => a matches StateWriteAction::Finish(Err(DiagnosticError::InvalidResetRequest)),
    }
}

impl StateWrite {
    /// Takes how the last action went and returns the next action.
    pub fn step(&mut self, event: StateWriteEvent) -> (r: StateWriteAction)
        requires
            2 <= old(self).len,
        ensures
            final(self).phase == spec_next_phase(*old(self), event),
            final(self).len == old(self).len,
            old(self).phase == StateWritePhase::AwaitInspect ==> (event matches StateWriteEvent::TempInspected { identity, attributes }
                ==> (temp_is_plain(attributes) ==> final(self).written == identity)),
            !(old(self).phase == StateWritePhase::AwaitInspect && event is TempInspected) ==> final(self).written == old(self).written,
            final(self).phase == StateWritePhase::Finished ==> finish_fits(*old(self), event, r),
            final(self).phase != StateWritePhase::Finished ==> action_for(final(self).phase, final(self).len, r),
    {
        let len = self.len;
        let phase = self.phase;
        match phase {
            StateWritePhase::Finished => {
                return StateWriteAction::Finish(Err(DiagnosticError::InvalidResetRequest));
            },
            _ => {},
        }
        match event {
            StateWriteEvent::Failed(err) => {
                self.phase = StateWritePhase::Finished;
                StateWriteAction::Finish(Err(err))
            },
            StateWriteEvent::Checked { marker_exists } => {
                if phase != StateWritePhase::AwaitCheck {
                    self.phase = StateWritePhase::Finished;
                    StateWriteAction::Finish(Err(DiagnosticError::InvalidResetRequest))
                } else if marker_exists {
                    self.phase = StateWritePhase::Finished;
                    StateWriteAction::Finish(
                        Err(DiagnosticError::Io(String::from_str("reset state marker already exists"))),
                    )
                } else {
                    self.phase = StateWritePhase::AwaitCreate;
                    StateWriteAction::CreateTemp
                }
            },
            StateWriteEvent::TempInspected { identity, attributes } => {
                if phase != StateWritePhase::AwaitInspect {
                    self.phase = StateWritePhase::Finished;
                    StateWriteAction::Finish(Err(DiagnosticError::InvalidResetRequest))
                } else if attributes & FILE_ATTRIBUTE_REPARSE_POINT == 0 && attributes
                    & FILE_ATTRIBUTE_DIRECTORY == 0 {
                    self.written = identity;
                    self.phase = StateWritePhase::AwaitRename;
                    StateWriteAction::RenameToMarker
                } else {
                    self.phase = StateWritePhase::Finished;
                    StateWriteAction::Finish(Err(DiagnosticError::InvalidResetRequest))
                }
            },
            StateWriteEvent::PublishedInspected { identity, is_reparse, is_directory } => {
                if phase != StateWritePhase::AwaitPublished {
                    self.phase = StateWritePhase::Finished;
                    StateWriteAction::Finish(Err(DiagnosticError::InvalidResetRequest))
                } else if identity == self.written && !is_reparse && !is_directory {
                    self.phase = StateWritePhase::AwaitFileSync;
                    StateWriteAction::SyncFile
                } else {
                    self.phase = StateWritePhase::Finished;
                    StateWriteAction::Finish(Err(DiagnosticError::InvalidResetRequest))
                }
            },
            StateWriteEvent::Done => {
                match phase {
                    StateWritePhase::AwaitCreate => {
                        self.phase = StateWritePhase::AwaitHead;
                        StateWriteAction::WriteBytes { from: 0, to: len / 2 }
                    },
                    StateWritePhase::AwaitHead => {
                        self.phase = StateWritePhase::AwaitTail;
                        StateWriteAction::WriteBytes { from: len / 2, to: len }
                    },
                    StateWritePhase::AwaitTail => {
                        self.phase = StateWritePhase::AwaitTempSync;
                        StateWriteAction::SyncTemp
                    },
                    StateWritePhase::AwaitTempSync => {
                        self.phase = StateWritePhase::AwaitInspect;
                        StateWriteAction::InspectTemp
                    },
                    StateWritePhase::AwaitRename => {
                        self.phase = StateWritePhase::AwaitDirectorySync;
                        StateWriteAction::SyncDirectory
                    },
                    StateWritePhase::AwaitDirectorySync => {
                        self.phase = StateWritePhase::AwaitPublished;
                        StateWriteAction::InspectPublished
                    },
                    StateWritePhase::AwaitFileSync => {
                        self.phase = StateWritePhase::AwaitFinalSync;
                        StateWriteAction::SyncDirectory
                    },
                    StateWritePhase::AwaitFinalSync => {
                        self.phase = StateWritePhase::Finished;
                        StateWriteAction::Finish(Ok(()))
                    },
                    _ => {
                        self.phase = StateWritePhase::Finished;
                        StateWriteAction::Finish(Err(DiagnosticError::InvalidResetRequest))
                    },
                }
            },
        }
    }
}


/// The position of a phase in the write.
pub open spec fn phase_rank(p: StateWritePhase) -> int {
    match p {
        StateWritePhase::AwaitCheck => 0,
        StateWritePhase::AwaitCreate => 1,
        StateWritePhase::AwaitHead => 2,
        StateWritePhase::AwaitTail => 3,
        StateWritePhase::AwaitTempSync => 4,
        StateWritePhase::AwaitInspect => 5,
        StateWritePhase::AwaitRename => 6,
        StateWritePhase::AwaitDirectorySync => 7,
        StateWritePhase::AwaitPublished => 8,
        StateWritePhase::AwaitFileSync => 9,
        StateWritePhase::AwaitFinalSync => 10,
        StateWritePhase::Finished => 11,
    }
}

/// A write moves one step at a time through its phases or finishes, and a
/// finished write stays finished: so the marker is renamed into place only
/// after the check, the creation, both halves of the bytes, the sync and
/// the inspection of the temporary file, in that order, and it is reported
/// written only after the published file and its directory were flushed.
pub proof fn law_writes_advance_in_order(w: StateWrite, e: StateWriteEvent)
    ensures
        spec_next_phase(w, e) == StateWritePhase::Finished || phase_rank(spec_next_phase(w, e))
            == phase_rank(w.phase) + 1,
        w.phase == StateWritePhase::Finished ==> spec_next_phase(w, e) == StateWritePhase::Finished,
        spec_next_phase(w, e) == StateWritePhase::AwaitRename ==> w.phase == StateWritePhase::AwaitInspect,
{
}

/// The two writes of the bytes cover the record exactly once, in order.
pub proof fn law_bytes_are_written_once(len: usize)
    requires
        2 <= len,
    ensures
        0 < split_point(len) < len,
{
}
} // verus!
