//! Carrying a save to Steam, step by step: it is staged, Steam is looked at once more, the
//! version that is given up is backed up, the save is uploaded, and the device is looked at once
//! more.
use vstd::prelude::*;

use crate::cloud::{CloudError, CloudFile, CloudView};
use crate::digest::{identity_of, sha1_of};
use crate::engine::EngineError;
use crate::exchange::{
    check_contents_unchanged, check_local_unchanged, check_not_created, check_remote_bytes,
    check_remote_listed, exchanged_entry, file_named, finish_push, occupied, prepare_upload,
    upload_of, wants_rep_plus, PreparedUpload, RemoteCheck, UploadView,
};
use crate::isaac_format::{as_rep_plus, canonical_form, is_canonical, SaveError};
use crate::isaac_format_laws::canonical_form_is_stable;
use crate::model::{
    BackupSource, FileIdentity, IdentityView, LocalSave, LocalView, SyncState, SyncView,
};
use crate::order::views;
use crate::sync_state::upserted;
use crate::transfer::{is_upload, MAX_SAVE_TRANSFER_SIZE};
use crate::upload::{
    is_next_action, is_over, next_stage, verified_uploads_are_listed, StageView, Upload,
    UploadAction, UploadEvent, UploadFailure, UploadProgress,
};

verus! {

/// What an upload puts on Steam.
#[derive(Debug)]
pub enum PushTarget {
    /// Another version of a file, which had the given bytes.
    Over { file: CloudFile, bytes: Vec<u8> },
    /// A file that Steam does not have.
    New { remote_name: String },
}

/// What a `PushTarget` holds.
pub enum TargetView {
    Over { file: CloudView, bytes: Seq<u8> },
    New { remote_name: Seq<char> },
}

impl View for PushTarget {
    type V = TargetView;

    open spec fn view(&self) -> TargetView {
        match self {
            PushTarget::Over { file, bytes } => TargetView::Over { file: file@, bytes: bytes@ },
            PushTarget::New { remote_name } => TargetView::New { remote_name: remote_name@ },
        }
    }
}

/// The name on Steam.
pub open spec fn target_name(target: TargetView) -> Seq<char> {
    match target {
        TargetView::Over { file, .. } => file.request_name,
        TargetView::New { remote_name } => remote_name,
    }
}

impl PushTarget {
    /// The name on Steam.
    fn name(&self) -> (name: &str)
        ensures
            name@ == target_name(self@),
    {
        match self {
            PushTarget::Over { file, .. } => file.request_name.as_str(),
            PushTarget::New { remote_name } => remote_name.as_str(),
        }
    }
}

/// Why a save was not carried to Steam.
#[derive(Debug, Clone, Copy, PartialEq, Eq, Structural)]
pub enum PushFailure {
    /// The staged bytes are no save that can be uploaded.
    Save(SaveError),
    /// One of the two sides changed.
    Engine(EngineError),
    /// The upload was not begun.
    Cloud(CloudError),
    /// The upload failed.
    Upload(UploadFailure),
}

/// What became of what was asked for.
#[derive(Debug)]
pub enum PushEvent {
    /// The quiet save was copied: what it was, and the copy.
    Staged { raw: FileIdentity, bytes: Vec<u8> },
    /// Steam listed the saves.
    Listed(Vec<CloudFile>),
    /// Steam's file was downloaded.
    Downloaded(Vec<u8>),
    /// The backup was made.
    BackedUp,
    /// The upload got on.
    Uploading(UploadEvent),
    /// The save's bytes were read again.
    RawRead(FileIdentity),
    /// The save was read again in its canonical form.
    SaveRead(FileIdentity),
}

/// What is asked for next.
#[derive(Debug)]
pub enum PushAction {
    /// The save is copied when it is quiet.
    Stage,
    /// The saves are listed anew.
    List,
    /// This file is downloaded anew.
    Download(CloudFile),
    /// The bytes that Steam had are backed up.
    BackupRemote(BackupSource),
    /// The save on the device is backed up.
    BackupLocal(BackupSource),
    /// The upload goes on.
    Upload(UploadAction),
    /// The save's bytes are read again.
    ReadRaw,
    /// The save is read again in its canonical form.
    ReadSave,
    /// The save is on Steam.
    Settled,
    Failed(PushFailure),
}

#[derive(Debug)]
enum Stage {
    StageNext,
    ListNext { raw: FileIdentity, upload: PreparedUpload },
    CompareNext { raw: FileIdentity, upload: PreparedUpload, latest: CloudFile },
    BackupNext { raw: FileIdentity, upload: PreparedUpload },
    Uploading { raw: FileIdentity, identity: FileIdentity, running: Upload },
    RawNext { raw: FileIdentity, identity: FileIdentity, verified: CloudFile },
    SaveNext { identity: FileIdentity, verified: CloudFile },
    Settled { identity: FileIdentity, verified: CloudFile, observed: FileIdentity },
    Failed(PushFailure),
}

/// How far the way to Steam is.
pub enum PushStage {
    /// The save is to be staged.
    StageNext,
    /// Steam is to be looked at; `raw` is what the staged file was.
    ListNext { raw: IdentityView, upload: UploadView },
    /// The listed file is to be compared byte by byte.
    CompareNext { raw: IdentityView, upload: UploadView, latest: CloudView },
    /// Steam has what it had; a backup is to be made.
    BackupNext { raw: IdentityView, upload: UploadView },
    /// The upload is at `stage`; `identity` is that of the canonical save.
    Uploading { raw: IdentityView, identity: IdentityView, bytes: Seq<u8>, stage: StageView },
    /// The upload is on Steam; the file on the device is to be looked at.
    RawNext { raw: IdentityView, identity: IdentityView, verified: CloudView },
    /// The file has the same bytes; the save in it is to be looked at.
    SaveNext { identity: IdentityView, verified: CloudView },
    /// Both sides have the save.
    Settled { identity: IdentityView, verified: CloudView, observed: IdentityView },
    Failed(PushFailure),
}

/// A save on its way to Steam.
#[derive(Debug)]
pub struct Push {
    local: LocalSave,
    target: PushTarget,
    stage: Stage,
}

/// What a `Push` holds.
pub struct PushView {
    pub local: LocalView,
    pub target: TargetView,
    pub stage: PushStage,
}

impl View for Push {
    type V = PushView;

    closed spec fn view(&self) -> PushView {
        PushView {
            local: self.local@,
            target: self.target@,
            stage: match self.stage {
                Stage::StageNext => PushStage::StageNext,
                Stage::ListNext { raw, upload } => PushStage::ListNext {
                    raw: raw@,
                    upload: upload@,
                },
                Stage::CompareNext { raw, upload, latest } => PushStage::CompareNext {
                    raw: raw@,
                    upload: upload@,
                    latest: latest@,
                },
                Stage::BackupNext { raw, upload } => PushStage::BackupNext {
                    raw: raw@,
                    upload: upload@,
                },
                Stage::Uploading { raw, identity, running } => PushStage::Uploading {
                    raw: raw@,
                    identity: identity@,
                    bytes: running@.bytes,
                    stage: running@.stage,
                },
                Stage::RawNext { raw, identity, verified } => PushStage::RawNext {
                    raw: raw@,
                    identity: identity@,
                    verified: verified@,
                },
                Stage::SaveNext { identity, verified } => PushStage::SaveNext {
                    identity: identity@,
                    verified: verified@,
                },
                Stage::Settled { identity, verified, observed } => PushStage::Settled {
                    identity: identity@,
                    verified: verified@,
                    observed: observed@,
                },
                Stage::Failed(failure) => PushStage::Failed(failure),
            },
        }
    }
}

/// What a list of Steam's saves comes to ahead of an upload: it goes on where Steam has what it
/// had, and is compared byte by byte where the list does not tell.
pub open spec fn behind_list(
    push: PushView,
    raw: IdentityView,
    upload: UploadView,
    files: Seq<CloudView>,
) -> PushStage {
    match push.target {
        TargetView::New { remote_name } => if occupied(files, push.local.slot, remote_name) {
            PushStage::Failed(PushFailure::Engine(EngineError::RemoteCreated))
        } else {
            PushStage::BackupNext { raw, upload }
        },
        TargetView::Over { file, .. } => match file_named(files, file.request_name) {
            None => PushStage::Failed(PushFailure::Engine(EngineError::RemoteDisappeared)),
            Some(latest) => match (file.save.identity.steam_sha1, latest.save.identity.steam_sha1) {
                (Some(before), Some(now)) => if before == now {
                    PushStage::BackupNext { raw, upload }
                } else {
                    PushStage::Failed(PushFailure::Engine(EngineError::RemoteChanged))
                },
                _ => PushStage::CompareNext { raw, upload, latest },
            },
        },
    }
}

/// How far the way to Steam is behind an event. An event that does not answer what was asked for
/// changes nothing.
pub open spec fn next_push(push: PushView, event: PushEvent) -> PushStage {
    match (push.stage, event) {
        (PushStage::StageNext, PushEvent::Staged { raw, bytes }) => match upload_of(
            bytes@,
            raw@.modified_unix_ms,
            target_name(push.target),
        ) {
            Ok(upload) => PushStage::ListNext { raw: raw@, upload },
            Err(error) => PushStage::Failed(PushFailure::Save(error)),
        },
        (PushStage::ListNext { raw, upload }, PushEvent::Listed(files)) => behind_list(
            push,
            raw,
            upload,
            views(files@),
        ),
        (PushStage::CompareNext { raw, upload, .. }, PushEvent::Downloaded(bytes)) => {
            match push.target {
                TargetView::Over { bytes: before, .. } => if identity_of(bytes@).sha256
                    == identity_of(before).sha256 {
                    PushStage::BackupNext { raw, upload }
                } else {
                    PushStage::Failed(PushFailure::Engine(EngineError::RemoteChanged))
                },
                TargetView::New { .. } => push.stage,
            }
        },
        (PushStage::BackupNext { raw, upload }, PushEvent::BackedUp) => if upload.bytes.len()
            > MAX_SAVE_TRANSFER_SIZE {
            PushStage::Failed(PushFailure::Cloud(CloudError::UploadLimit))
        } else {
            PushStage::Uploading {
                raw,
                identity: upload.identity,
                bytes: upload.bytes,
                stage: StageView::BatchNext,
            }
        },
        (
            PushStage::Uploading { raw, identity, bytes, stage },
            PushEvent::Uploading(event),
        ) => match next_stage(
            UploadProgress { remote_name: target_name(push.target), bytes, stage },
            event,
        ) {
            StageView::Verified(verified) => PushStage::RawNext { raw, identity, verified },
            StageView::Failed(failure) => PushStage::Failed(PushFailure::Upload(failure)),
            stage => PushStage::Uploading { raw, identity, bytes, stage },
        },
        (PushStage::RawNext { raw, identity, verified }, PushEvent::RawRead(now)) => if now@.sha256
            == raw.sha256 {
            PushStage::SaveNext { identity, verified }
        } else {
            PushStage::Failed(PushFailure::Engine(EngineError::LocalChanged))
        },
        (PushStage::SaveNext { identity, verified }, PushEvent::SaveRead(observed)) => {
            if observed@.sha256 == identity.sha256 {
                PushStage::Settled { identity, verified, observed: observed@ }
            } else {
                PushStage::Failed(PushFailure::Engine(EngineError::LocalChangedSemantically))
            }
        },
        (stage, _) => stage,
    }
}

/// Whether an action is what is asked for.
pub open spec fn is_next_push_action(push: PushView, action: PushAction) -> bool {
    match (push.stage, action) {
        (PushStage::StageNext, PushAction::Stage) => true,
        (PushStage::ListNext { .. }, PushAction::List) => true,
        (PushStage::CompareNext { latest, .. }, PushAction::Download(file)) => file@ == latest,
        (PushStage::BackupNext { .. }, PushAction::BackupRemote(source)) => push.target is Over
            && source == BackupSource::SteamBeforePush,
        (PushStage::BackupNext { .. }, PushAction::BackupLocal(source)) => push.target is New
            && source == BackupSource::LocalFirstSync,
        (PushStage::Uploading { bytes, stage, .. }, PushAction::Upload(action)) => is_next_action(
            UploadProgress { remote_name: target_name(push.target), bytes, stage },
            action,
        ),
        (PushStage::RawNext { .. }, PushAction::ReadRaw) => true,
        (PushStage::SaveNext { .. }, PushAction::ReadSave) => true,
        (PushStage::Settled { .. }, PushAction::Settled) => true,
        (PushStage::Failed(failure), PushAction::Failed(failed)) => failed == failure,
        _ => false,
    }
}

/// How the way of a save to Steam begins.
pub open spec fn push_begun(local: LocalView, target: TargetView) -> PushView {
    PushView { local, target, stage: PushStage::StageNext }
}

impl Push {
    /// Whether the save is on a way that began with `new`.
    pub closed spec fn wf(&self) -> bool {
        match self.stage {
            Stage::CompareNext { .. } => self.target is Over,
            Stage::Uploading { running, .. } => running.wf() && running@.remote_name == target_name(
                self.target@,
            ) && !is_over(running@.stage),
            Stage::Settled { identity, observed, .. } => observed@.sha256 == identity@.sha256,
            _ => true,
        }
    }

    /// The way of a save to Steam.
    pub fn new(local: LocalSave, target: PushTarget) -> (push: Push)
        ensures
            push.wf(),
            push@ == push_begun(local@, target@),
    {
        Push { local, target, stage: Stage::StageNext }
    }

    /// Whether the device's encoding was undone for the upload that has been staged.
    pub fn is_decoded(&self) -> (decoded: bool)
        ensures
            decoded == (self@.stage matches PushStage::ListNext { upload, .. } && upload.decoded),
    {
        match &self.stage {
            Stage::ListNext { upload, .. } => upload.decoded,
            _ => false,
        }
    }

    /// What is asked for next.
    pub fn action(&self) -> (action: PushAction)
        requires
            self.wf(),
        ensures
            is_next_push_action(self@, action),
    {
        match &self.stage {
            Stage::StageNext => PushAction::Stage,
            Stage::ListNext { .. } => PushAction::List,
            Stage::CompareNext { latest, .. } => PushAction::Download(latest.clone()),
            Stage::BackupNext { .. } => match &self.target {
                PushTarget::Over { .. } => PushAction::BackupRemote(BackupSource::SteamBeforePush),
                PushTarget::New { .. } => PushAction::BackupLocal(BackupSource::LocalFirstSync),
            },
            Stage::Uploading { running, .. } => PushAction::Upload(running.action()),
            Stage::RawNext { .. } => PushAction::ReadRaw,
            Stage::SaveNext { .. } => PushAction::ReadSave,
            Stage::Settled { .. } => PushAction::Settled,
            Stage::Failed(failure) => PushAction::Failed(*failure),
        }
    }

    /// What a list of Steam's saves comes to.
    fn stage_behind_list(
        target: &PushTarget,
        slot: u8,
        raw: FileIdentity,
        upload: PreparedUpload,
        files: &Vec<CloudFile>,
    ) -> (stage: Stage)
        ensures
            stage matches Stage::CompareNext { .. } ==> target is Over,
            forall|push: PushView|
                push.target == target@ && push.local.slot == slot ==> match stage {
                    Stage::CompareNext { raw: r, upload: u, latest } => #[trigger] behind_list(
                        push,
                        raw@,
                        upload@,
                        views(files@),
                    ) == (PushStage::CompareNext { raw: r@, upload: u@, latest: latest@ }),
                    Stage::BackupNext { raw: r, upload: u } => behind_list(
                        push,
                        raw@,
                        upload@,
                        views(files@),
                    ) == (PushStage::BackupNext { raw: r@, upload: u@ }),
                    Stage::Failed(failure) => behind_list(push, raw@, upload@, views(files@))
                        == PushStage::Failed(failure),
                    _ => false,
                },
    {
        match target {
            PushTarget::New { remote_name } => {
                match check_not_created(files, slot, remote_name.as_str()) {
                    Ok(()) => Stage::BackupNext { raw, upload },
                    Err(error) => Stage::Failed(PushFailure::Engine(error)),
                }
            },
            PushTarget::Over { file, .. } => match check_remote_listed(files, file) {
                Ok(RemoteCheck::Unchanged) => Stage::BackupNext { raw, upload },
                Ok(RemoteCheck::Compare(latest)) => Stage::CompareNext { raw, upload, latest },
                Err(error) => Stage::Failed(PushFailure::Engine(error)),
            },
        }
    }

    /// The way behind an event.
    pub fn step(self, event: PushEvent) -> (next: Push)
        requires
            self.wf(),
        ensures
            next.wf(),
            next@ == (PushView { stage: next_push(self@, event), ..self@ }),
    {
        let Push { local, target, stage } = self;
        let stage: Stage = match (stage, event) {
            (Stage::StageNext, PushEvent::Staged { raw, bytes }) => {
                match prepare_upload(&bytes, &raw, target.name()) {
                    Ok(upload) => Stage::ListNext { raw, upload },
                    Err(error) => Stage::Failed(PushFailure::Save(error)),
                }
            },
            (Stage::ListNext { raw, upload }, PushEvent::Listed(files)) => Self::stage_behind_list(
                &target,
                local.slot,
                raw,
                upload,
                &files,
            ),
            (Stage::CompareNext { raw, upload, latest }, PushEvent::Downloaded(bytes)) => {
                match &target {
                    PushTarget::Over { bytes: before, .. } => {
                        match check_remote_bytes(&bytes, before) {
                            Ok(()) => Stage::BackupNext { raw, upload },
                            Err(error) => Stage::Failed(PushFailure::Engine(error)),
                        }
                    },
                    PushTarget::New { .. } => Stage::CompareNext { raw, upload, latest },
                }
            },
            (Stage::BackupNext { raw, upload }, PushEvent::BackedUp) => {
                match Upload::new(target.name(), &upload.bytes) {
                    Ok(running) => Stage::Uploading { raw, identity: upload.identity, running },
                    Err(error) => Stage::Failed(PushFailure::Cloud(error)),
                }
            },
            (Stage::Uploading { raw, identity, running }, PushEvent::Uploading(event)) => {
                let running: Upload = running.step(event);
                match running.outcome() {
                    Some(Ok(verified)) => Stage::RawNext { raw, identity, verified },
                    Some(Err(failure)) => Stage::Failed(PushFailure::Upload(failure)),
                    None => Stage::Uploading { raw, identity, running },
                }
            },
            (Stage::RawNext { raw, identity, verified }, PushEvent::RawRead(now)) => {
                match check_local_unchanged(&raw, &now) {
                    Ok(()) => Stage::SaveNext { identity, verified },
                    Err(error) => Stage::Failed(PushFailure::Engine(error)),
                }
            },
            (Stage::SaveNext { identity, verified }, PushEvent::SaveRead(observed)) => {
                match check_contents_unchanged(&identity, &observed) {
                    Ok(()) => Stage::Settled { identity, verified, observed },
                    Err(error) => Stage::Failed(PushFailure::Engine(error)),
                }
            },
            (stage, _) => stage,
        };
        Push { local, target, stage }
    }

    /// Both sides have the save: it becomes the last common version of its slot.
    pub fn settle(&self, state: &mut SyncState, now: u64)
        requires
            self.wf(),
            self@.stage is Settled,
        ensures
            final(state)@ == settled_push(old(state)@, self@, now),
    {
        if let Stage::Settled { identity, verified, observed } = &self.stage {
            finish_push(
                state,
                &self.local,
                self.target.name(),
                verified,
                identity,
                observed,
                now,
            );
        }
    }
}

/// The state behind a save that both sides have.
pub open spec fn settled_push(state: SyncView, push: PushView, now: u64) -> SyncView {
    match push.stage {
        PushStage::Settled { identity, verified, observed } => SyncView {
            files: upserted(
                state.files,
                exchanged_entry(
                    push.local,
                    target_name(push.target),
                    verified.save.identity,
                    identity,
                    observed,
                    now,
                ),
            ),
            ..state
        },
        _ => state,
    }
}

/// Whether an upload may follow behind this list: Steam has the file as it was compared, or,
/// for a new file, neither its slot nor its name.
pub open spec fn unchanged_in(push: PushView, files: Seq<CloudView>) -> bool {
    match push.target {
        TargetView::New { remote_name } => !occupied(files, push.local.slot, remote_name),
        TargetView::Over { file, .. } => match file_named(files, file.request_name) {
            Some(latest) => file.save.identity.steam_sha1 is Some
                && latest.save.identity.steam_sha1 == file.save.identity.steam_sha1,
            None => false,
        },
    }
}

/// An upload begins only behind a backup, and a backup is asked for only where Steam still has
/// what it had: by its list, or by the bytes of its file.
pub proof fn uploads_follow_checks_and_backups(push: PushView, event: PushEvent)
    ensures
        push.stage !is Uploading && next_push(push, event) is Uploading ==> push.stage is BackupNext
            && event is BackedUp,
        push.stage !is BackupNext && next_push(push, event) is BackupNext ==> match event {
            PushEvent::Listed(files) => push.stage is ListNext && unchanged_in(push, views(files@)),
            PushEvent::Downloaded(bytes) => push.stage is CompareNext && (
            push.target matches TargetView::Over { bytes: before, .. } && identity_of(bytes@).sha256
                == identity_of(before).sha256),
            _ => false,
        },
{
}

/// Whether `bytes` are what is uploaded under the name for a save of that identity: its
/// canonical form, in the layout of the generation that the name is of.
pub open spec fn is_upload_form(identity: IdentityView, remote_name: Seq<char>, bytes: Seq<u8>) -> bool {
    exists|canonical: Seq<u8>| #[trigger]
        is_canonical(canonical) && identity.sha256 == identity_of(canonical).sha256 && (
        if wants_rep_plus(remote_name) {
            as_rep_plus(canonical)
        } else {
            Ok(canonical)
        }) == Ok::<Seq<u8>, SaveError>(bytes)
}

/// Whether a listed file is the upload of a save of that identity.
pub open spec fn is_on_steam(identity: IdentityView, remote_name: Seq<char>, file: CloudView) -> bool {
    exists|bytes: Seq<u8>| #[trigger]
        is_upload_form(identity, remote_name, bytes) && is_upload(file, remote_name, sha1_of(bytes))
}

/// What holds on the way of a save to Steam.
pub open spec fn push_invariant(push: PushView) -> bool {
    let name = target_name(push.target);
    match push.stage {
        PushStage::StageNext => true,
        PushStage::ListNext { upload, .. } => is_upload_form(upload.identity, name, upload.bytes),
        PushStage::CompareNext { upload, .. } => is_upload_form(
            upload.identity,
            name,
            upload.bytes,
        ),
        PushStage::BackupNext { upload, .. } => is_upload_form(upload.identity, name, upload.bytes),
        PushStage::Uploading { identity, bytes, stage, .. } => is_upload_form(
            identity,
            name,
            bytes,
        ) && !is_over(stage),
        PushStage::RawNext { identity, verified, .. } => is_on_steam(identity, name, verified),
        PushStage::SaveNext { identity, verified } => is_on_steam(identity, name, verified),
        PushStage::Settled { identity, verified, observed } => is_on_steam(identity, name, verified)
            && observed.sha256 == identity.sha256,
        PushStage::Failed(_) => true,
    }
}

/// A save counts as carried to Steam only where Steam lists the upload of its canonical form by
/// name and SHA-1 and the device still has a save of the same canonical form: this holds of a
/// way that is settled, and every event keeps what leads there.
pub proof fn settled_pushes_are_on_both_sides(push: PushView, event: PushEvent)
    requires
        push_invariant(push),
    ensures
        push_invariant(PushView { stage: next_push(push, event), ..push }),
{
    let name = target_name(push.target);
    if let (PushStage::StageNext, PushEvent::Staged { bytes, .. }) = (push.stage, event) {
        canonical_form_is_stable(bytes@);
        if let Ok((canonical, _)) = canonical_form(bytes@) {
            assert(is_canonical(canonical));
        }
    }
    if let (PushStage::Uploading { identity, bytes, stage, .. }, PushEvent::Uploading(event)) = (
        push.stage,
        event,
    ) {
        let progress = UploadProgress { remote_name: name, bytes, stage };
        verified_uploads_are_listed(progress, event);
        assert(is_upload_form(identity, name, bytes));
    }
}

} // verus!
