//! What answers lead a save to the other side, and which stop it on the way.
use vstd::prelude::*;

use crate::cloud::{CloudError, CloudView};
use crate::digest::{hex_text, identity_of, sha256_of};
use crate::engine::{remote_of_slot, EngineError};
use crate::exchange::{exchanged_entry, new_name, upload_of};
use crate::force::{
    decision_begun, first_stage, forced_target, is_next_force_action, next_force, queued_state,
    step_forced, ForceAction, ForceEvent, ForceStage, ForceView, StepView,
};
use crate::lookup_laws::{named_file_is_the_first_of_its_name, remote_save_is_the_first_of_its_slot};
use crate::model::{BackupSource, FileStateView, LocalView, SyncView};
use crate::order::views;
use crate::pull::{
    is_next_pull_action, next_pull, pull_begun, settled_pull, PullAction, PullEvent, PullProgress,
    PullStage,
};
use crate::push::{
    is_next_push_action, next_push, push_begun, settled_push, PushAction, PushEvent, PushFailure,
    PushStage, PushView, TargetView,
};
use crate::status::ChoiceView;
use crate::sync_state::{one_entry_for_each_slot, pull_of};
use crate::upload::{next_stage, StageView, UploadProgress};

verus! {

/// The name on Steam that a push is for.
pub open spec fn name_for(target: TargetView) -> Seq<char> {
    match target {
        TargetView::Over { file, .. } => file.request_name,
        TargetView::New { remote_name } => remote_name,
    }
}

/// Whether the first file listed under the name of `file` is at `at`.
pub open spec fn is_listed_first(files: Seq<CloudView>, file: CloudView, at: int) -> bool {
    &&& 0 <= at < files.len()
    &&& files[at].request_name == file.request_name
    &&& forall|k: int|
        0 <= k < at ==> (#[trigger] files[k]).request_name != file.request_name
}

/// What a staged save comes to: it is prepared for its name on Steam, and ends the push where it
/// cannot be.
pub proof fn staged_saves_are_prepared(push: PushView, event: PushEvent)
    requires
        push.stage is StageNext,
    ensures
        event matches PushEvent::Staged { raw, bytes } ==> match upload_of(
            bytes@,
            raw@.modified_unix_ms,
            name_for(push.target),
        ) {
            Ok(upload) => next_push(push, event) == (PushStage::ListNext { raw: raw@, upload }),
            Err(error) => next_push(push, event) == PushStage::Failed(PushFailure::Save(error)),
        },
{
}

/// What Steam's list says ahead of an upload. Of a new file: nothing is listed of its slot or
/// under its name. Of a file that is uploaded over: it is listed as it was, which is told by its
/// SHA-1, and where that is missing on either side by its bytes. Anything else ends the push.
pub proof fn lists_are_compared_with_what_was_seen(push: PushView, event: PushEvent, at: int)
    ensures
        (push.stage matches PushStage::ListNext { raw, upload } && event matches PushEvent::Listed(
            list,
        )) ==> {
            let (raw, upload) = (push.stage->ListNext_raw, push.stage->ListNext_upload);
            let files = views(event->Listed_0@);
            let next = next_push(push, event);
            let goes_on = next == (PushStage::BackupNext { raw, upload });
            &&& push.target matches TargetView::New { remote_name } ==> {
                let taken = exists|i: int|
                    0 <= i < files.len() && ((#[trigger] files[i]).save.slot == push.local.slot
                        || files[i].request_name == remote_name);
                &&& !taken ==> goes_on
                &&& taken ==> next == PushStage::Failed(
                    PushFailure::Engine(EngineError::RemoteCreated),
                )
            }
            &&& push.target matches TargetView::Over { file, .. } ==> {
                &&& (forall|k: int|
                    0 <= k < files.len() ==> (#[trigger] files[k]).request_name
                        != file.request_name) ==> next == PushStage::Failed(
                    PushFailure::Engine(EngineError::RemoteDisappeared),
                )
                &&& is_listed_first(files, file, at) ==> {
                    let (before, now) = (
                        file.save.identity.steam_sha1,
                        files[at].save.identity.steam_sha1,
                    );
                    &&& before is Some && now == before ==> goes_on
                    &&& before is Some && now is Some && now != before ==> next
                        == PushStage::Failed(PushFailure::Engine(EngineError::RemoteChanged))
                    &&& before is None || now is None ==> next == (PushStage::CompareNext {
                        raw,
                        upload,
                        latest: files[at],
                    })
                }
            }
        },
{
    if let (PushStage::ListNext { .. }, PushEvent::Listed(list)) = (push.stage, event) {
        if let TargetView::Over { file, .. } = push.target {
            named_file_is_the_first_of_its_name(views(list@), file.request_name);
            if is_listed_first(views(list@), file, at) {
                let files = views(list@);
                let i = choose|i: int|
                    0 <= i < files.len() && (#[trigger] files[i]).request_name == file.request_name
                        && forall|k: int|
                        0 <= k < i ==> (#[trigger] files[k]).request_name != file.request_name;
                assert(files[at].request_name == file.request_name);
                assert(i == at);
            }
        }
    }
}

/// The rest of the way to Steam: the file on Steam has the same bytes as before by its SHA-256, a
/// backup is made, an upload of at most 32 MiB begins and goes on until it is verified, the file
/// on the device has the same bytes as when it was staged, and the save in it is the one that was
/// uploaded. A push whose answers say anything else fails, and never counts.
pub proof fn pushes_go_on_while_nothing_changed(push: PushView, event: PushEvent)
    ensures
        ({
            let next = next_push(push, event);
            match (push.stage, event) {
                (PushStage::CompareNext { raw, upload, .. }, PushEvent::Downloaded(bytes)) =>
                push.target matches TargetView::Over { bytes: before, .. } ==> {
                    let same = hex_text(sha256_of(bytes@)) == hex_text(sha256_of(before));
                    &&& same ==> next == (PushStage::BackupNext { raw, upload })
                    &&& !same ==> next == PushStage::Failed(
                        PushFailure::Engine(EngineError::RemoteChanged),
                    )
                },
                (PushStage::BackupNext { raw, upload }, PushEvent::BackedUp) => {
                    &&& upload.bytes.len() <= 33_554_432 ==> next == (PushStage::Uploading {
                        raw,
                        identity: upload.identity,
                        bytes: upload.bytes,
                        stage: StageView::BatchNext,
                    })
                    &&& upload.bytes.len() > 33_554_432 ==> next == PushStage::Failed(
                        PushFailure::Cloud(CloudError::UploadLimit),
                    )
                },
                (
                    PushStage::Uploading { raw, identity, bytes, stage },
                    PushEvent::Uploading(step),
                ) => {
                    let after = next_stage(
                        UploadProgress { remote_name: name_for(push.target), bytes, stage },
                        step,
                    );
                    &&& after matches StageView::Verified(verified) ==> next == (
                    PushStage::RawNext { raw, identity, verified })
                    &&& after matches StageView::Failed(failure) ==> next == PushStage::Failed(
                        PushFailure::Upload(failure),
                    )
                    &&& after !is Verified && after !is Failed ==> next == (PushStage::Uploading {
                        raw,
                        identity,
                        bytes,
                        stage: after,
                    })
                },
                (PushStage::RawNext { raw, identity, verified }, PushEvent::RawRead(now)) => {
                    &&& now@.sha256 == raw.sha256 ==> next == (PushStage::SaveNext {
                        identity,
                        verified,
                    })
                    &&& now@.sha256 != raw.sha256 ==> next == PushStage::Failed(
                        PushFailure::Engine(EngineError::LocalChanged),
                    )
                },
                (PushStage::SaveNext { identity, verified }, PushEvent::SaveRead(observed)) => {
                    &&& observed@.sha256 == identity.sha256 ==> next == (PushStage::Settled {
                        identity,
                        verified,
                        observed: observed@,
                    })
                    &&& observed@.sha256 != identity.sha256 ==> next == PushStage::Failed(
                        PushFailure::Engine(EngineError::LocalChangedSemantically),
                    )
                },
                (PushStage::Settled { .. }, _) => next == push.stage,
                (PushStage::Failed(_), _) => next == push.stage,
                _ => true,
            }
        }),
{
}

/// What a push asks for at each stage: ahead of an upload over Steam's file its bytes are backed
/// up, ahead of a new file the device's save.
pub proof fn pushes_ask_for_what_is_next(push: PushView, action: PushAction)
    requires
        is_next_push_action(push, action),
    ensures
        match push.stage {
            PushStage::StageNext => action is Stage,
            PushStage::ListNext { .. } => action is List,
            PushStage::CompareNext { latest, .. } => action matches PushAction::Download(file)
                && file@ == latest,
            PushStage::BackupNext { .. } => {
                &&& push.target is Over ==> action == PushAction::BackupRemote(
                    BackupSource::SteamBeforePush,
                )
                &&& push.target is New ==> action == PushAction::BackupLocal(
                    BackupSource::LocalFirstSync,
                )
            },
            PushStage::Uploading { .. } => action is Upload,
            PushStage::RawNext { .. } => action is ReadRaw,
            PushStage::SaveNext { .. } => action is ReadSave,
            PushStage::Settled { .. } => action is Settled,
            PushStage::Failed(failure) => action == PushAction::Failed(failure),
        },
{
}

/// A save that is on both sides is remembered under its name on Steam as the last common version
/// of its slot, by what was seen on the device and by what Steam lists; what was remembered of
/// other slots and names stays, and nothing else is changed.
pub proof fn settled_pushes_are_remembered(
    state: SyncView,
    push: PushView,
    now: u64,
    file: FileStateView,
)
    ensures
        push.stage matches PushStage::Settled { identity, verified, observed } ==> {
            let after = settled_push(state, push, now);
            let entry = exchanged_entry(
                push.local,
                name_for(push.target),
                verified.save.identity,
                identity,
                observed,
                now,
            );
            &&& after.files.contains(file) <==> (file == entry || (state.files.contains(file)
                && file.slot != push.local.slot && file.remote_name != name_for(push.target)))
            &&& after.pending_remote_pulls == state.pending_remote_pulls
            &&& after.pending_local_restore == state.pending_local_restore
            &&& after.cloud_change_number == state.cloud_change_number
            &&& after.steam_id == state.steam_id && after.account_name == state.account_name
        },
        push.stage !is Settled ==> settled_push(state, push, now) == state,
{
    if let PushStage::Settled { identity, verified, observed } = push.stage {
        one_entry_for_each_slot(
            state.files,
            exchanged_entry(
                push.local,
                name_for(push.target),
                verified.save.identity,
                identity,
                observed,
                now,
            ),
        );
    }
}

/// A replacement goes from its backup to the write, from there to the look at what was written,
/// and stands where that has the SHA-256 of the bytes that were to be written. A write that
/// failed, and contents that are others or cannot be read, are undone by the backup, and then the
/// replacement has failed for that reason.
pub proof fn replacements_go_on_while_they_stand(pull: PullProgress, event: PullEvent)
    ensures
        ({
            let next = next_pull(pull, event);
            match (pull.stage, event) {
                (PullStage::BackupNext, PullEvent::BackedUp) => next is WriteNext,
                (PullStage::WriteNext, PullEvent::Written(ok)) => {
                    &&& ok ==> next is ReadNext
                    &&& !ok ==> next == PullStage::RollbackNext(EngineError::WriteFailed)
                },
                (PullStage::ReadNext, PullEvent::Read(read)) => match read {
                    Some(observed) => {
                        let same = observed@.sha256 == hex_text(sha256_of(pull.bytes));
                        &&& same ==> next == PullStage::Settled(observed@)
                        &&& !same ==> next == PullStage::RollbackNext(
                            EngineError::VerificationFailed,
                        )
                    },
                    None => next == PullStage::RollbackNext(EngineError::Unverifiable),
                },
                (PullStage::RollbackNext(error), PullEvent::RolledBack) => next
                    == PullStage::Failed(error),
                _ => next == pull.stage,
            }
        }),
{
}

/// What a replacement asks for at each stage.
pub proof fn replacements_ask_for_what_is_next(pull: PullProgress, action: PullAction)
    requires
        is_next_pull_action(pull, action),
    ensures
        match pull.stage {
            PullStage::BackupNext => action == PullAction::Backup(BackupSource::LocalBeforePull),
            PullStage::WriteNext => action matches PullAction::Write(bytes) && bytes@ == pull.bytes,
            PullStage::ReadNext => action is Read,
            PullStage::RollbackNext(error) => action == PullAction::Rollback(error),
            PullStage::Settled(_) => action is Settled,
            PullStage::Failed(error) => action == PullAction::Failed(error),
        },
{
}

/// A replacement that stands is remembered under Steam's name as the last common version of its
/// slot, by what was seen on the device.
pub proof fn settled_replacements_are_remembered(
    state: SyncView,
    pull: PullProgress,
    now: u64,
    file: FileStateView,
)
    ensures
        pull.stage matches PullStage::Settled(observed) ==> {
            let after = settled_pull(state, pull, now);
            &&& after.files.contains(file) ==> file.slot == pull.local.slot || (
            state.files.contains(file) && file.remote_name != pull.remote.request_name)
            &&& after.files.contains(file) && file.slot == pull.local.slot ==> {
                &&& file.remote_name == pull.remote.request_name
                &&& file.local_relative_path == pull.local.relative_path
                &&& file.base_sha256 == observed.sha256 && file.last_local == observed
                &&& file.base_steam_sha1 == pull.remote.save.identity.steam_sha1
                &&& file.last_remote.sha256 == hex_text(sha256_of(pull.bytes))
                &&& file.last_remote.size == pull.bytes.len() as u64
                &&& file.last_remote.steam_sha1 == pull.remote.save.identity.steam_sha1
                &&& file.last_remote.modified_unix_ms
                    == pull.remote.save.identity.modified_unix_ms
                &&& file.last_successful_sync_unix_ms == now
            }
            &&& state.files.contains(file) && file.slot != pull.local.slot && file.remote_name
                != pull.remote.request_name ==> after.files.contains(file)
            &&& exists|i: int|
                0 <= i < after.files.len() && (#[trigger] after.files[i]).slot == pull.local.slot
            &&& after.pending_remote_pulls == state.pending_remote_pulls
            &&& after.pending_local_restore == state.pending_local_restore
            &&& after.cloud_change_number == state.cloud_change_number
            &&& after.steam_id == state.steam_id && after.account_name == state.account_name
        },
        pull.stage !is Settled ==> settled_pull(state, pull, now) == state,
{
    if let PullStage::Settled(observed) = pull.stage {
        let entry = exchanged_entry(
            pull.local,
            pull.remote.request_name,
            pull.remote.save.identity,
            identity_of(pull.bytes),
            observed,
            now,
        );
        one_entry_for_each_slot(state.files, entry);
        let after = settled_pull(state, pull, now);
        assert(after.files.contains(entry));
        let i = choose|i: int| 0 <= i < after.files.len() && after.files[i] == entry;
        assert(after.files[i].slot == pull.local.slot);
    }
}

/// What the user's decision comes to: for the device's version an upload, over Steam's file where
/// there is one and else as a new file under the given name; for Steam's version its queueing,
/// and nothing where Steam has none.
pub proof fn decisions_come_to_their_step(remote: CloudView, name: Seq<char>)
    ensures
        step_forced(Some(remote), true, name) == Ok::<StepView, EngineError>(
            StepView::PushOver(remote),
        ),
        step_forced(Some(remote), false, name) == Ok::<StepView, EngineError>(
            StepView::QueuePull(remote),
        ),
        step_forced(None, true, name) == Ok::<StepView, EngineError>(StepView::PushNew(name)),
        step_forced(None, false, name) == Err::<StepView, EngineError>(
            EngineError::NoRemoteToPull,
        ),
        first_stage(StepView::PushOver(remote)) is DownloadNext,
        first_stage(StepView::QueuePull(remote)) is DownloadNext,
        first_stage(StepView::PushNew(name)) is Ready,
{
}

/// A decision goes from the download over the two backups to what was decided, and carries Steam's
/// bytes all the way.
pub proof fn decisions_go_on_behind_their_backups(stage: ForceStage, event: ForceEvent)
    ensures
        match (stage, event) {
            (ForceStage::DownloadNext, ForceEvent::Downloaded(bytes)) => next_force(stage, event)
                == ForceStage::BackupLocalNext(bytes@),
            (ForceStage::BackupLocalNext(raw), ForceEvent::BackedUp) => next_force(stage, event)
                == ForceStage::BackupRemoteNext(raw),
            (ForceStage::BackupRemoteNext(raw), ForceEvent::BackedUp) => next_force(stage, event)
                == ForceStage::Ready(raw),
            _ => next_force(stage, event) == stage,
        },
{
}

/// What a decision asks for at each stage: the file, the backups of both versions as those ahead
/// of a decision, and then the push over that file and its bytes or to the new name, or the queue.
pub proof fn decisions_ask_for_what_is_next(force: ForceView, action: ForceAction)
    requires
        is_next_force_action(force, action),
    ensures
        match (force.stage, force.step) {
            (ForceStage::Ready(raw), StepView::PushOver(file)) => action matches ForceAction::Push(
                target,
            ) && target@ == (TargetView::Over { file, bytes: raw }),
            (ForceStage::Ready(_), StepView::PushNew(name)) => action matches ForceAction::Push(
                target,
            ) && target@ == (TargetView::New { remote_name: name }),
            (ForceStage::Ready(_), StepView::QueuePull(_)) => action is Queue,
            (_, StepView::PushNew(_)) => false,
            (ForceStage::DownloadNext, StepView::PushOver(of)) => action
                matches ForceAction::Download(file) && file@ == of,
            (ForceStage::DownloadNext, StepView::QueuePull(of)) => action
                matches ForceAction::Download(file) && file@ == of,
            (ForceStage::BackupLocalNext(_), _) => action == ForceAction::BackupLocal(
                BackupSource::LocalBeforeForce,
            ),
            (ForceStage::BackupRemoteNext(raw), StepView::PushOver(of)) => action
                matches ForceAction::BackupRemote { source, file, bytes } && source
                == BackupSource::SteamBeforeForce && file@ == of && bytes@ == raw,
            (ForceStage::BackupRemoteNext(raw), StepView::QueuePull(of)) => action
                matches ForceAction::BackupRemote { source, file, bytes } && source
                == BackupSource::SteamBeforeForce && file@ == of && bytes@ == raw,
        },
{
}

/// A decision for Steam's version queues it for its slot and leaves all else.
pub proof fn queued_decisions_change_one_slot(
    state: SyncView,
    force: ForceView,
    now: u64,
    slot: u8,
)
    ensures
        force.step matches StepView::QueuePull(file) ==> {
            let after = queued_state(state, force, now);
            &&& after.pending_remote_pulls.dom().contains(slot) <==> slot == force.local.slot
                || state.pending_remote_pulls.dom().contains(slot)
            &&& slot == force.local.slot ==> after.pending_remote_pulls[slot] == pull_of(
                slot,
                file,
                now,
            )
            &&& slot != force.local.slot ==> after.pending_remote_pulls[slot]
                == state.pending_remote_pulls[slot]
            &&& after.files == state.files && after.steam_id == state.steam_id
            &&& after.account_name == state.account_name
            &&& after.cloud_change_number == state.cloud_change_number
            &&& after.pending_local_restore == state.pending_local_restore
        },
        force.step is QueuePull ==> forced_target(force.step, Seq::empty()) is None,
{
}

/// Where the ways between the sides begin: a push with its staging, a replacement with its backup
/// and only while it is allowed.
pub proof fn ways_begin_at_their_start(
    local: LocalView,
    target: TargetView,
    remote: CloudView,
    bytes: Seq<u8>,
)
    ensures
        ({
            let push = push_begun(local, target);
            &&& push.local == local && push.target == target && push.stage is StageNext
        }),
        pull_begun(local, remote, bytes, true) matches Ok(pull) && pull.local == local && pull.remote
            == remote && pull.bytes == bytes && pull.stage is BackupNext,
        pull_begun(local, remote, bytes, false) == Err::<PullProgress, EngineError>(
            EngineError::ReplacementNotAllowed,
        ),
{
}

/// A decision about a save is about the first file that Steam lists of its slot, and where there
/// is none about a new file under the name that is known for it.
pub proof fn decisions_are_about_the_slot(
    local: LocalView,
    listed: Seq<CloudView>,
    use_local: bool,
    choices: Seq<ChoiceView>,
    files: Seq<FileStateView>,
    at: int,
)
    ensures
        ({
            let begun = decision_begun(local, listed, use_local, choices, files);
            &&& 0 <= at < listed.len() && listed[at].save.slot == local.slot && (forall|k: int|
                0 <= k < at ==> (#[trigger] listed[k]).save.slot != local.slot) ==> (
            begun matches Ok(force) && force.local == local && force.stage is DownloadNext && (
            use_local ==> force.step == StepView::PushOver(listed[at])) && (!use_local ==> force.step
                == StepView::QueuePull(listed[at])))
            &&& (forall|k: int| 0 <= k < listed.len() ==> (#[trigger] listed[k]).save.slot
                != local.slot) ==> {
                &&& use_local ==> (begun matches Ok(force) && force.local == local
                    && force.stage is Ready && force.step == StepView::PushNew(
                    new_name(choices, files, local),
                ))
                &&& !use_local ==> begun == Err::<ForceView, EngineError>(
                    EngineError::NoRemoteToPull,
                )
            }
        }),
{
    remote_save_is_the_first_of_its_slot(listed, local.slot);
    if 0 <= at < listed.len() && listed[at].save.slot == local.slot && (forall|k: int|
        0 <= k < at ==> (#[trigger] listed[k]).save.slot != local.slot) {
        let found = remote_of_slot(listed, local.slot);
        if found is None {
            assert(listed[at].save.slot != local.slot);
        } else {
            let i = choose|i: int|
                0 <= i < listed.len() && (#[trigger] listed[i]) == found.unwrap()
                    && listed[i].save.slot == local.slot && forall|k: int|
                    0 <= k < i ==> (#[trigger] listed[k]).save.slot != local.slot;
            assert(i == at);
        }
    }
}

} // verus!
