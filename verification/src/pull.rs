//! Replacing a save on the device, step by step: it is backed up, written and read again, and
//! the backup is put back where the replacement does not stand.
use vstd::prelude::*;

use crate::bytes::to_vec;
use crate::cloud::{CloudFile, CloudView};
use crate::digest::{identity_for_bytes, identity_of};
use crate::engine::EngineError;
use crate::exchange::{check_replacement_allowed, exchanged_entry, finish_pull};
use crate::model::{
    BackupSource, FileIdentity, IdentityView, LocalSave, LocalView, SyncState, SyncView,
};
use crate::sync_state::upserted;
use crate::text::same_text;

verus! {

/// What became of what was asked for.
#[derive(Debug)]
pub enum PullEvent {
    /// The backup was made.
    BackedUp,
    /// The file was written, or could not be.
    Written(bool),
    /// The file was read, or could not be.
    Read(Option<FileIdentity>),
    /// The backup was put back.
    RolledBack,
}

/// What is asked for next.
#[derive(Debug)]
pub enum PullAction {
    /// The save on the device is backed up.
    Backup(BackupSource),
    /// The save on the device is replaced at once by these bytes.
    Write(Vec<u8>),
    /// The file is read again.
    Read,
    /// The backup is put back.
    Rollback(EngineError),
    /// The save on the device is the one of Steam.
    Settled,
    /// The save on the device is the one it was.
    Failed(EngineError),
}

#[derive(Debug)]
enum Stage {
    BackupNext,
    WriteNext,
    ReadNext,
    RollbackNext(EngineError),
    Settled(FileIdentity),
    Failed(EngineError),
}

/// How far a replacement is.
pub enum PullStage {
    /// The save is to be backed up.
    BackupNext,
    /// The save is to be replaced.
    WriteNext,
    /// The replacement is to be verified.
    ReadNext,
    /// The replacement does not stand; the backup is to be put back.
    RollbackNext(EngineError),
    /// The device has this.
    Settled(IdentityView),
    Failed(EngineError),
}

/// A replacement in progress.
#[derive(Debug)]
pub struct Pull {
    local: LocalSave,
    remote: CloudFile,
    bytes: Vec<u8>,
    contents: FileIdentity,
    stage: Stage,
}

/// What a `Pull` holds.
pub struct PullProgress {
    pub local: LocalView,
    pub remote: CloudView,
    /// What replaces the save.
    pub bytes: Seq<u8>,
    pub stage: PullStage,
}

impl View for Pull {
    type V = PullProgress;

    closed spec fn view(&self) -> PullProgress {
        PullProgress {
            local: self.local@,
            remote: self.remote@,
            bytes: self.bytes@,
            stage: match self.stage {
                Stage::BackupNext => PullStage::BackupNext,
                Stage::WriteNext => PullStage::WriteNext,
                Stage::ReadNext => PullStage::ReadNext,
                Stage::RollbackNext(error) => PullStage::RollbackNext(error),
                Stage::Settled(observed) => PullStage::Settled(observed@),
                Stage::Failed(error) => PullStage::Failed(error),
            },
        }
    }
}

/// How far a replacement is behind an event. An event that does not answer what was asked for
/// changes nothing.
pub open spec fn next_pull(pull: PullProgress, event: PullEvent) -> PullStage {
    match (pull.stage, event) {
        (PullStage::BackupNext, PullEvent::BackedUp) => PullStage::WriteNext,
        (PullStage::WriteNext, PullEvent::Written(true)) => PullStage::ReadNext,
        (PullStage::WriteNext, PullEvent::Written(false)) => PullStage::RollbackNext(
            EngineError::WriteFailed,
        ),
        (PullStage::ReadNext, PullEvent::Read(Some(observed))) => if observed@.sha256
            == identity_of(pull.bytes).sha256 {
            PullStage::Settled(observed@)
        } else {
            PullStage::RollbackNext(EngineError::VerificationFailed)
        },
        (PullStage::ReadNext, PullEvent::Read(None)) => PullStage::RollbackNext(
            EngineError::Unverifiable,
        ),
        (PullStage::RollbackNext(error), PullEvent::RolledBack) => PullStage::Failed(error),
        (stage, _) => stage,
    }
}

/// Whether an action is what is asked for.
pub open spec fn is_next_pull_action(pull: PullProgress, action: PullAction) -> bool {
    match (pull.stage, action) {
        (PullStage::BackupNext, PullAction::Backup(source)) => source
            == BackupSource::LocalBeforePull,
        (PullStage::WriteNext, PullAction::Write(bytes)) => bytes@ == pull.bytes,
        (PullStage::ReadNext, PullAction::Read) => true,
        (PullStage::RollbackNext(error), PullAction::Rollback(reason)) => reason == error,
        (PullStage::Settled(_), PullAction::Settled) => true,
        (PullStage::Failed(error), PullAction::Failed(reason)) => reason == error,
        _ => false,
    }
}

/// The state behind a replacement that stands.
pub open spec fn settled_pull(state: SyncView, pull: PullProgress, now: u64) -> SyncView {
    match pull.stage {
        PullStage::Settled(observed) => SyncView {
            files: upserted(
                state.files,
                exchanged_entry(
                    pull.local,
                    pull.remote.request_name,
                    pull.remote.save.identity,
                    identity_of(pull.bytes),
                    observed,
                    now,
                ),
            ),
            ..state
        },
        _ => state,
    }
}

/// How a replacement begins, while that is allowed.
pub open spec fn pull_begun(
    local: LocalView,
    remote: CloudView,
    bytes: Seq<u8>,
    replacement_allowed: bool,
) -> Result<PullProgress, EngineError> {
    if replacement_allowed {
        Ok(PullProgress { local, remote, bytes, stage: PullStage::BackupNext })
    } else {
        Err(EngineError::ReplacementNotAllowed)
    }
}

impl Pull {
    /// Whether the replacement is one that began with `new`.
    pub closed spec fn wf(&self) -> bool {
        &&& self.contents@ == identity_of(self.bytes@)
        &&& self.stage matches Stage::Settled(observed) ==> observed@.sha256
            == self.contents@.sha256
    }

    /// The replacement of a save by `bytes`, which are Steam's, while that is allowed.
    pub fn new(local: LocalSave, remote: CloudFile, bytes: &[u8], replacement_allowed: bool) -> (result:
        Result<Pull, EngineError>)
        ensures
            match result {
                Ok(pull) => pull.wf() && pull_begun(local@, remote@, bytes@, replacement_allowed)
                    == Ok::<PullProgress, EngineError>(pull@),
                Err(error) => pull_begun(local@, remote@, bytes@, replacement_allowed) == Err::<
                    PullProgress,
                    EngineError,
                >(error),
            },
    {
        match check_replacement_allowed(replacement_allowed) {
            Ok(()) => Ok(
                Pull {
                    local,
                    remote,
                    bytes: to_vec(bytes),
                    contents: identity_for_bytes(bytes),
                    stage: Stage::BackupNext,
                },
            ),
            Err(error) => Err(error),
        }
    }

    /// What is asked for next.
    pub fn action(&self) -> (action: PullAction)
        requires
            self.wf(),
        ensures
            is_next_pull_action(self@, action),
    {
        match &self.stage {
            Stage::BackupNext => PullAction::Backup(BackupSource::LocalBeforePull),
            Stage::WriteNext => PullAction::Write(to_vec(&self.bytes)),
            Stage::ReadNext => PullAction::Read,
            Stage::RollbackNext(error) => PullAction::Rollback(*error),
            Stage::Settled(_) => PullAction::Settled,
            Stage::Failed(error) => PullAction::Failed(*error),
        }
    }

    /// The replacement behind an event.
    pub fn step(self, event: PullEvent) -> (next: Pull)
        requires
            self.wf(),
        ensures
            next.wf(),
            next@ == (PullProgress { stage: next_pull(self@, event), ..self@ }),
    {
        let Pull { local, remote, bytes, contents, stage } = self;
        let stage: Stage = match (stage, event) {
            (Stage::BackupNext, PullEvent::BackedUp) => Stage::WriteNext,
            (Stage::WriteNext, PullEvent::Written(true)) => Stage::ReadNext,
            (Stage::WriteNext, PullEvent::Written(false)) => Stage::RollbackNext(
                EngineError::WriteFailed,
            ),
            (Stage::ReadNext, PullEvent::Read(Some(observed))) => {
                if same_text(observed.sha256.as_str(), contents.sha256.as_str()) {
                    Stage::Settled(observed)
                } else {
                    Stage::RollbackNext(EngineError::VerificationFailed)
                }
            },
            (Stage::ReadNext, PullEvent::Read(None)) => Stage::RollbackNext(
                EngineError::Unverifiable,
            ),
            (Stage::RollbackNext(error), PullEvent::RolledBack) => Stage::Failed(error),
            (stage, _) => stage,
        };
        Pull { local, remote, bytes, contents, stage }
    }

    /// The replacement stands: the version becomes the last common one of its slot.
    pub fn settle(&self, state: &mut SyncState, now: u64)
        requires
            self.wf(),
            self@.stage is Settled,
        ensures
            final(state)@ == settled_pull(old(state)@, self@, now),
    {
        if let Stage::Settled(observed) = &self.stage {
            finish_pull(state, &self.local, &self.remote, &self.contents, observed, now);
        }
    }
}

/// A save is written over only behind its backup.
pub proof fn saves_are_backed_up_first(pull: PullProgress, event: PullEvent)
    ensures
        pull.stage !is WriteNext && next_pull(pull, event) is WriteNext ==> pull.stage is BackupNext
            && event is BackedUp,
        pull.stage !is ReadNext && next_pull(pull, event) is ReadNext ==> pull.stage is WriteNext,
{
}

/// Once the save is being written over, the replacement either stands verified or is undone: it
/// ends with the contents that it was to have, or behind the backup that was put back.
pub proof fn replacements_stand_or_are_undone(pull: PullProgress, event: PullEvent)
    requires
        pull.stage is WriteNext || pull.stage is ReadNext || pull.stage is RollbackNext,
    ensures
        match next_pull(pull, event) {
            PullStage::WriteNext => pull.stage is WriteNext,
            PullStage::ReadNext => true,
            PullStage::RollbackNext(_) => true,
            PullStage::Settled(observed) => pull.stage is ReadNext && observed.sha256
                == identity_of(pull.bytes).sha256,
            PullStage::Failed(_) => pull.stage is RollbackNext && event is RolledBack,
            PullStage::BackupNext => false,
        },
{
}

} // verus!
