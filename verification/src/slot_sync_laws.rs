//! What a synchronization does with a slot, told by the versions on both sides.
use vstd::prelude::*;

use crate::cloud::CloudView;
use crate::digest::{hex_text, sha256_of};
use crate::engine::{
    choice_between, choice_without_remote, has_slot, in_scope, is_slot_check, local_shown,
    may_upload, remote_shown, repeats_slot, scope_outcome, source_for, taking_part, ChoiceKind,
    EngineError, LocalSource,
};
use crate::isaac_format::{canonical_form, rep_form, SaveEncoding, SaveError};
use crate::lookup_laws::{entry_is_the_first_of_its_slot, remote_save_is_the_first_of_its_slot};
use crate::model::{BackupSource, FileStateView, FileSyncState, IdentityView, LocalView, SyncView};
use crate::order::Ranked;
use crate::push::TargetView;
use crate::slot_sync::{
    backups_for, behind_download, copy_of, counterpart, in_progress, is_next_pass_action,
    next_local, pass_backed_up, pass_begun, pass_settled, pass_transferred, pass_without_remote,
    planned, run_finished, settled, CopyView, PassAction, PassStage, PassView, RunView, SlotPlan,
    SlotStep,
};
use crate::sync_engine::{decision, SyncDecision};
use crate::sync_state::{base_of, one_entry_for_each_slot, pull_of, synced_entry};
use crate::text_laws::{differs_at_chars, texts_are_ordered_by_the_first_difference};

verus! {

/// The last common version of a slot is that of the first entry of the slot, and a slot without
/// an entry has none.
pub proof fn base_is_that_of_the_entry(files: Seq<FileStateView>, slot: u8, i: int)
    ensures
        0 <= i < files.len() && files[i].slot == slot && (forall|k: int|
            0 <= k < i ==> (#[trigger] files[k]).slot != slot) ==> base_of(files, slot) == Some(
            files[i].base_sha256,
        ),
        base_of(files, slot) is None <==> forall|k: int|
            0 <= k < files.len() ==> (#[trigger] files[k]).slot != slot,
{
    entry_is_the_first_of_its_slot(files, slot);
}

/// The table of a synchronization. Where neither side changed, nothing is done. Where one side
/// alone changed, the other gets its version. Where both have the same new version, it becomes the
/// common one. Where both changed differently, and where nothing was ever common, the user is
/// asked.
pub proof fn sides_are_compared_by_the_table(base: Seq<char>, local: Seq<char>, remote: Seq<char>)
    ensures
        decision(None, local, remote) == SyncDecision::FirstSyncChoiceRequired,
        local == base && remote == base ==> decision(Some(base), local, remote)
            == SyncDecision::Unchanged,
        local != base && remote == base ==> decision(Some(base), local, remote)
            == SyncDecision::UploadLocal,
        local == base && remote != base ==> decision(Some(base), local, remote)
            == SyncDecision::DownloadRemote,
        local != base && remote != base && local == remote ==> decision(Some(base), local, remote)
            == SyncDecision::Converged,
        local != base && remote != base && local != remote ==> decision(Some(base), local, remote)
            == SyncDecision::Conflict,
{
}

/// What is done with a slot without a queued replacement: by the table, where an upload waits for
/// the user's wish, a replacement for the next start, and a save in the device's encoding on
/// Steam is uploaded anew.
pub proof fn slots_are_planned_by_the_table(
    state: SyncView,
    local: LocalView,
    remote: CloudView,
    copy: CopyView,
    allow_upload: bool,
    replacement_allowed: bool,
)
    requires
        !state.pending_remote_pulls.dom().contains(local.slot) || state.pending_remote_pulls[
            local.slot
        ].remote_name != remote.request_name
            || state.pending_remote_pulls[local.slot].expected_steam_sha1
            != copy.identity.steam_sha1,
    ensures
        ({
            let plan = planned(state, local, remote, copy, allow_upload, replacement_allowed);
            let (mine, theirs) = (local.identity.sha256, copy.identity.sha256);
            &&& plan.forget_pull == state.pending_remote_pulls.dom().contains(local.slot)
            &&& plan.compared == Some(decision(base_of(state.files, local.slot), mine, theirs))
            &&& match base_of(state.files, local.slot) {
                None => plan.step == SlotStep::Choose(ChoiceKind::FirstSync),
                Some(base) => {
                    &&& mine == base && theirs == base && !copy.needs_repair ==> plan.step
                        == SlotStep::Keep
                    &&& theirs == base && (mine != base || copy.needs_repair) && allow_upload
                        ==> plan.step == SlotStep::Push
                    &&& theirs == base && (mine != base || copy.needs_repair) && !allow_upload
                        ==> plan.step == SlotStep::UploadWaits
                    &&& mine == base && theirs != base && replacement_allowed ==> plan.step == (
                    SlotStep::Pull { queued: false })
                    &&& mine == base && theirs != base && !replacement_allowed ==> plan.step
                        == SlotStep::Choose(ChoiceKind::RestartRequired)
                    &&& mine == theirs && mine != base && copy.needs_repair && allow_upload
                        ==> plan.step == SlotStep::Push
                    &&& mine == theirs && mine != base && !(copy.needs_repair && allow_upload)
                        ==> plan.step == (SlotStep::AdvanceBase { upload_waits: copy.needs_repair })
                    &&& mine != base && theirs != base && mine != theirs ==> plan.step
                        == SlotStep::Choose(ChoiceKind::Conflict)
                },
            }
        }),
{
}

/// A replacement that the user queued comes first, as long as Steam still has that version under
/// that name: it is carried out where that is allowed, and otherwise waits for the next start.
pub proof fn queued_replacements_come_first(
    state: SyncView,
    local: LocalView,
    remote: CloudView,
    copy: CopyView,
    allow_upload: bool,
    replacement_allowed: bool,
)
    requires
        state.pending_remote_pulls.dom().contains(local.slot),
        state.pending_remote_pulls[local.slot].remote_name == remote.request_name,
        state.pending_remote_pulls[local.slot].expected_steam_sha1 == copy.identity.steam_sha1,
    ensures
        planned(state, local, remote, copy, allow_upload, replacement_allowed) == if replacement_allowed {
            SlotPlan { forget_pull: true, compared: None, step: SlotStep::Pull { queued: true } }
        } else {
            SlotPlan {
                forget_pull: false,
                compared: None,
                step: SlotStep::Choose(ChoiceKind::RestartRequired),
            }
        },
{
}

/// What Steam has of a slot: its canonical form, and that in the Repentance layout, by which it is
/// compared. It is to be repaired where it came in the device's encoding. What is no save is
/// refused, and so is what cannot be brought into the Repentance layout.
pub proof fn copies_are_compared_by_their_repentance_form(raw: Seq<u8>, file: CloudView, slot: u8)
    ensures
        match copy_of(raw, file, slot) {
            Ok(copy) => {
                &&& canonical_form(raw) matches Ok((data, encoding)) && copy.canonical == data
                    && copy.needs_repair == (encoding == SaveEncoding::IosRawLz4)
                &&& rep_form(raw) == Ok::<Seq<u8>, SaveError>(copy.normalized)
                &&& copy.identity.sha256 == hex_text(sha256_of(copy.normalized))
                &&& copy.identity.size == copy.normalized.len() as u64
                &&& copy.identity.modified_unix_ms == file.save.identity.modified_unix_ms
                &&& copy.identity.steam_sha1 == file.save.identity.steam_sha1
            },
            Err(EngineError::InvalidRemote { slot: of, error }) => of == slot && canonical_form(raw)
                == Err::<(Seq<u8>, SaveEncoding), SaveError>(error),
            Err(EngineError::Conversion(error)) => canonical_form(raw) is Ok && rep_form(raw)
                == Err::<Seq<u8>, SaveError>(error),
            Err(_) => false,
        },
{
}

/// Both versions of a slot are backed up ahead of a question to the user: of a first
/// synchronization, and of a conflict. Ahead of anything else they are not.
pub proof fn questions_are_backed_up(step: SlotStep)
    ensures
        step == SlotStep::Choose(ChoiceKind::FirstSync) ==> backups_for(step) == Some(
            (BackupSource::LocalFirstSync, BackupSource::SteamFirstSync),
        ),
        step == SlotStep::Choose(ChoiceKind::Conflict) ==> backups_for(step) == Some(
            (BackupSource::LocalConflict, BackupSource::SteamConflict),
        ),
        step !is Choose || step == SlotStep::Choose(ChoiceKind::RestartRequired) ==> backups_for(
            step,
        ) is None,
{
}

/// What a step leaves behind. A queued replacement that is taken back is gone, and no other. A
/// common version is remembered under its name, and nothing else is. An upload that waits is
/// counted, and a question is put behind the others.
pub proof fn steps_leave_their_mark(
    run: RunView,
    plan: SlotPlan,
    local: LocalView,
    remote: CloudView,
    identity: IdentityView,
    now: u64,
)
    ensures
        ({
            let after = settled(run, plan, local, remote, identity, now);
            let waits = plan.step == SlotStep::UploadWaits || plan.step == (SlotStep::AdvanceBase {
                upload_waits: true,
            });
            &&& forall|slot: u8| #[trigger]
                after.state.pending_remote_pulls.dom().contains(slot) <==> (
                run.state.pending_remote_pulls.dom().contains(slot) && !(plan.forget_pull && slot
                    == local.slot))
            &&& after.state.steam_id == run.state.steam_id
            &&& after.state.account_name == run.state.account_name
            &&& after.state.cloud_change_number == run.state.cloud_change_number
            &&& after.state.pending_local_restore == run.state.pending_local_restore
            &&& plan.step !is AdvanceBase ==> after.state.files == run.state.files
            &&& plan.step is AdvanceBase ==> forall|file: FileStateView| #[trigger]
                after.state.files.contains(file) <==> (file == synced_entry(
                    local,
                    remote,
                    identity,
                    now,
                ) || (run.state.files.contains(file) && file.slot != local.slot && file.remote_name
                    != remote.request_name))
            &&& after.uploads_waiting == run.uploads_waiting + if waits {
                1int
            } else {
                0int
            }
            &&& plan.step !is Choose ==> after.pending == run.pending
            &&& plan.step matches SlotStep::Choose(kind) ==> after.pending == run.pending.push(
                choice_between(local, remote, identity, kind),
            )
        }),
{
    one_entry_for_each_slot(run.state.files, synced_entry(local, remote, identity, now));
}

/// What is remembered of a version that both sides have.
pub proof fn common_versions_are_remembered(
    local: LocalView,
    remote: CloudView,
    identity: IdentityView,
    now: u64,
)
    ensures
        ({
            let entry = synced_entry(local, remote, identity, now);
            &&& entry.slot == local.slot && entry.local_relative_path == local.relative_path
            &&& entry.remote_name == remote.request_name
            &&& entry.base_sha256 == local.identity.sha256
            &&& entry.base_steam_sha1 == identity.steam_sha1
            &&& entry.last_local == local.identity && entry.last_remote == identity
            &&& entry.last_successful_sync_unix_ms == now
        }),
{
}

/// What the user is asked about a slot: why, and about which two versions, each with its own name,
/// size, time and hashes.
pub proof fn questions_show_both_versions(
    local: LocalView,
    remote: CloudView,
    identity: IdentityView,
    kind: ChoiceKind,
)
    ensures
        ({
            let choice = choice_between(local, remote, identity, kind);
            &&& choice.slot == local.slot
            &&& choice.remote_name == remote.request_name
            &&& kind == ChoiceKind::FirstSync ==> choice.kind == "first_sync"@
            &&& kind == ChoiceKind::Conflict ==> choice.kind == "conflict"@
            &&& kind == ChoiceKind::RestartRequired ==> choice.kind
                == "remote_update_restart_required"@
            &&& choice.local.slot == local.slot && choice.local.filename == local.relative_path
            &&& choice.local.size == local.identity.size
            &&& choice.local.modified_unix_ms == local.identity.modified_unix_ms
            &&& choice.local.sha256 == Some(local.identity.sha256)
            &&& choice.local.steam_sha1 == local.identity.steam_sha1
            &&& choice.remote.slot == remote.save.slot
            &&& choice.remote.filename == remote.request_name
            &&& choice.remote.size == remote.save.identity.size
            &&& choice.remote.modified_unix_ms == remote.save.identity.modified_unix_ms
            &&& choice.remote.sha256 == Some(identity.sha256)
            &&& choice.remote.steam_sha1 == remote.save.identity.steam_sha1
        }),
{
}

/// What the user is asked about a slot that Steam does not have: the device's version is shown,
/// none of Steam's, and the name is that of the device's file.
pub proof fn missing_saves_are_told(local: LocalView)
    ensures
        ({
            let choice = choice_without_remote(local);
            &&& choice.slot == local.slot && choice.kind == "first_sync_remote_missing"@
            &&& local.path.len() > 0 ==> choice.remote_name == local.path[local.path.len() - 1].text
            &&& choice.local == local_shown(local)
            &&& choice.remote.slot == local.slot
            &&& choice.remote.filename == "Not present on Steam"@
            &&& choice.remote.size == 0 && choice.remote.modified_unix_ms is None
            &&& choice.remote.sha256 is None && choice.remote.steam_sha1 is None
        }),
{
}

/// What is shown of a save on Steam: its full name, and a SHA-256 only where it is known.
pub proof fn saves_on_steam_are_shown(file: CloudView)
    ensures
        ({
            let shown = remote_shown(file);
            &&& shown.slot == file.save.slot && shown.filename == file.request_name
            &&& shown.size == file.save.identity.size
            &&& shown.modified_unix_ms == file.save.identity.modified_unix_ms
            &&& shown.steam_sha1 == file.save.identity.steam_sha1
            &&& file.save.identity.sha256.len() > 0 ==> shown.sha256 == Some(
                file.save.identity.sha256,
            )
            &&& file.save.identity.sha256.len() == 0 ==> shown.sha256 is None
        }),
{
}

/// Only the user's own wish uploads. It looks at all saves of the device; ahead of a start those
/// that were seen then take part; and otherwise those of the slots that Steam has.
pub proof fn triggers_decide_what_takes_part(trigger: Seq<char>)
    ensures
        may_upload(trigger) <==> trigger == "manual"@,
        trigger == "manual"@ ==> source_for(trigger) == LocalSource::All,
        trigger == "prelaunch"@ ==> source_for(trigger) == LocalSource::Preflight,
        trigger != "manual"@ && trigger != "prelaunch"@ ==> source_for(trigger)
            == LocalSource::RemoteSlots,
{
    reveal_strlit("manual");
    reveal_strlit("prelaunch");
    assert("manual"@.len() != "prelaunch"@.len());
}

/// Of Steam's saves exactly those of slots that are not excluded take part. Of the device's saves
/// all do, but ahead of a start only those of slots that Steam has.
pub proof fn only_known_slots_take_part(
    trigger: Seq<char>,
    local: Seq<LocalView>,
    remote: Seq<CloudView>,
    excluded: Set<u8>,
    file: CloudView,
    save: LocalView,
)
    ensures
        in_scope(remote, excluded).contains(file) <==> remote.contains(file) && !excluded.contains(
            file.save.slot,
        ),
        trigger != "prelaunch"@ ==> taking_part(trigger, local, remote) == local,
        trigger == "prelaunch"@ ==> (taking_part(trigger, local, remote).contains(save)
            <==> local.contains(save) && exists|i: int|
            0 <= i < remote.len() && (#[trigger] remote[i]).save.slot == save.slot),
{
    broadcast use vstd::seq_lib::group_filter_ensures;

    let of_scope = |file: CloudView| !excluded.contains(file.save.slot);
    if in_scope(remote, excluded).contains(file) {
        remote.lemma_filter_contains_rev(of_scope, file);
    }
    if remote.contains(file) && of_scope(file) {
        let i = choose|i: int| 0 <= i < remote.len() && remote[i] == file;
        assert(remote.filter(of_scope).contains(remote[i]));
    }
    let of_part = |save: LocalView| has_slot(remote, save.slot);
    if trigger == "prelaunch"@ {
        if taking_part(trigger, local, remote).contains(save) {
            local.lemma_filter_contains_rev(of_part, save);
        }
        if local.contains(save) && of_part(save) {
            let i = choose|i: int| 0 <= i < local.len() && local[i] == save;
            assert(local.filter(of_part).contains(local[i]));
        }
    }
}

/// Behind the download of a slot that is a save, a synchronization carries out what is planned for
/// exactly what was downloaded: it transfers where a transfer is planned, backs both versions up
/// where the user will be asked, and otherwise puts the plan down.
pub proof fn passes_carry_out_the_plan(pass: PassView, raw: Seq<u8>, replacement_allowed: bool)
    requires
        counterpart(pass) is Some,
    ensures
        ({
            let file = counterpart(pass).unwrap();
            let local = next_local(pass);
            match copy_of(raw, file, local.slot) {
                Ok(copy) => {
                    let plan = planned(
                        pass.run.state,
                        local,
                        file,
                        copy,
                        pass.allow_upload,
                        replacement_allowed,
                    );
                    let stage = behind_download(pass, raw, replacement_allowed);
                    let asks = plan.step == SlotStep::Choose(ChoiceKind::FirstSync) || plan.step
                        == SlotStep::Choose(ChoiceKind::Conflict);
                    let moves = plan.step is Push || plan.step is Pull;
                    &&& moves ==> stage == (PassStage::TransferNext { raw, copy, plan })
                    &&& asks ==> stage == (PassStage::BackupNext { raw, copy, plan })
                    &&& !moves && !asks ==> stage == (PassStage::SettleNext { copy, plan })
                },
                Err(error) => {
                    let stage = behind_download(pass, raw, replacement_allowed);
                    &&& canonical_form(raw) is Err ==> stage == (PassStage::KeepInvalidNext {
                        raw,
                        error,
                    })
                    &&& canonical_form(raw) is Ok ==> stage == PassStage::Failed(error)
                },
            }
        }),
{
}

/// What a synchronization asks for is about the next save and its counterpart: a push goes over
/// that file with the bytes that it had, a pull puts the queued version in the Repentance layout
/// on the device and any other as it is on Steam, and backups are of what was downloaded.
pub proof fn passes_ask_for_what_is_planned(pass: PassView, action: PassAction)
    requires
        is_next_pass_action(pass, action),
    ensures
        match (pass.stage, action) {
            (
                PassStage::TransferNext { raw, plan, .. },
                PassAction::Push { local, target },
            ) => plan.step == SlotStep::Push && local@ == next_local(pass) && (
            target@ matches TargetView::Over { file, bytes } && Some(file) == counterpart(pass)
                && bytes == raw),
            (
                PassStage::TransferNext { copy, plan, .. },
                PassAction::Pull { local, file, bytes },
            ) => local@ == next_local(pass) && Some(file@) == counterpart(pass) && (plan.step == (
            SlotStep::Pull { queued: true }) && bytes@ == copy.normalized || plan.step == (
            SlotStep::Pull { queued: false }) && bytes@ == copy.canonical),
            (PassStage::TransferNext { .. }, _) => false,
            (_, PassAction::Push { .. }) => false,
            (_, PassAction::Pull { .. }) => false,
            (
                PassStage::BackupNext { raw, .. },
                PassAction::BackupBoth { local, file, bytes, .. },
            ) => local@ == next_local(pass) && Some(file@) == counterpart(pass) && bytes@ == raw,
            (
                PassStage::KeepInvalidNext { raw, .. },
                PassAction::BackupRemote { file, bytes, source, .. },
            ) => Some(file@) == counterpart(pass) && bytes@ == raw && source
                == BackupSource::SteamInvalid,
            (
                PassStage::LookNext,
                PassAction::Download { local, file },
            ) => pass.next < pass.local.len() && local@ == next_local(pass) && Some(file@)
                == counterpart(pass),
            (
                PassStage::LookNext,
                PassAction::BackupLocal { local, source },
            ) => pass.next < pass.local.len() && local@ == next_local(pass) && counterpart(
                pass,
            ) is None && source == BackupSource::LocalFirstSync,
            (PassStage::LookNext, PassAction::Finish) => pass.next == pass.local.len(),
            (PassStage::LookNext, _) => false,
            (PassStage::SettleNext { .. }, PassAction::Settle) => true,
            (PassStage::Failed(error), PassAction::Failed(reason)) => reason == error,
            _ => false,
        },
{
}

/// A save that was dealt with leaves its mark once, and the next save comes next; a transfer only
/// changes what is remembered.
pub proof fn passes_go_from_save_to_save(pass: PassView, state: SyncView, now: u64)
    ensures
        pass.stage matches PassStage::SettleNext { copy, plan } ==> {
            let after = pass_settled(pass, now);
            &&& after.next == pass.next + 1 && after.stage is LookNext
            &&& after.local == pass.local && after.remote == pass.remote
            &&& after.allow_upload == pass.allow_upload
            &&& counterpart(pass) matches Some(file) ==> after.run == settled(
                pass.run,
                plan,
                next_local(pass),
                file,
                copy.identity,
                now,
            )
        },
        pass.stage matches PassStage::TransferNext { copy, plan, .. } ==> {
            let after = pass_transferred(pass, state);
            &&& after.next == pass.next && after.stage == (PassStage::SettleNext { copy, plan })
            &&& after.local == pass.local && after.remote == pass.remote
            &&& after.allow_upload == pass.allow_upload
            &&& after.run.state == state && after.run.pending == pass.run.pending
            &&& after.run.uploads_waiting == pass.run.uploads_waiting
        },
{
}

/// A queued replacement is known by the name and the SHA-1 of Steam's version.
pub proof fn queued_replacements_are_known(slot: u8, remote: CloudView, now: u64)
    ensures
        ({
            let pull = pull_of(slot, remote, now);
            &&& pull.slot == slot && pull.remote_name == remote.request_name
            &&& pull.expected_steam_sha1 == remote.save.identity.steam_sha1
            &&& pull.requested_unix_ms == now
        }),
{
}

/// A synchronization begins before its first save with what both sides have and with what is
/// remembered, and ends with what it came to and the number of Steam's change.
pub proof fn passes_begin_and_end(
    trigger: Seq<char>,
    local: Seq<LocalView>,
    remote: Seq<CloudView>,
    state: SyncView,
    run: RunView,
    change_number: u64,
)
    ensures
        ({
            let pass = pass_begun(trigger, local, remote, state);
            &&& pass.local == local && pass.remote == remote && pass.next == 0
                && pass.stage is LookNext
            &&& pass.allow_upload <==> trigger == "manual"@
            &&& pass.run.state == state && pass.run.pending.len() == 0 && pass.run.uploads_waiting
                == 0
        }),
        ({
            let done = run_finished(run, change_number);
            &&& done.state.cloud_change_number == Some(change_number)
            &&& done.state.files == run.state.files && done.state.pending_remote_pulls
                == run.state.pending_remote_pulls
            &&& done.state.steam_id == run.state.steam_id && done.state.account_name
                == run.state.account_name
            &&& done.state.pending_local_restore == run.state.pending_local_restore
            &&& done.pending == run.pending && done.uploads_waiting == run.uploads_waiting
        }),
{
}

/// A save that Steam does not have is left to the user, and the next one comes next. A backup that
/// was made leads on: what is no save ends the synchronization, and of other saves the plan is put
/// down.
pub proof fn passes_go_on_behind_backups(pass: PassView)
    ensures
        ({
            let without = pass_without_remote(pass);
            let kept = pass_backed_up(pass);
            &&& without.next == pass.next + 1 && without.stage == pass.stage
            &&& without.run.pending == pass.run.pending.push(
                choice_without_remote(next_local(pass)),
            )
            &&& without.run.state == pass.run.state && without.run.uploads_waiting
                == pass.run.uploads_waiting
            &&& without.local == pass.local && without.remote == pass.remote
                && without.allow_upload == pass.allow_upload
            &&& pass.stage matches PassStage::KeepInvalidNext { error, .. } ==> kept.stage
                == PassStage::Failed(error)
            &&& pass.stage matches PassStage::BackupNext { copy, plan, .. } ==> kept.stage == (
            PassStage::SettleNext { copy, plan })
            &&& kept.run == pass.run && kept.next == pass.next && kept.local == pass.local
                && kept.remote == pass.remote && kept.allow_upload == pass.allow_upload
        }),
{
}

/// A synchronization needs a save on the device that takes part, and tells where there is none.
/// Two saves of one slot behind each other are told by the slot.
pub proof fn syncs_need_saves_of_different_slots(
    trigger: Seq<char>,
    local: Seq<LocalView>,
    remote: Seq<CloudView>,
    error: Option<EngineError>,
)
    ensures
        taking_part(trigger, local, remote).len() == 0 ==> scope_outcome(trigger, local, remote)
            == Err::<Seq<LocalView>, EngineError>(EngineError::NoLocalSaves),
        taking_part(trigger, local, remote).len() > 0 ==> scope_outcome(trigger, local, remote)
            == Ok::<Seq<LocalView>, EngineError>(taking_part(trigger, local, remote)),
        is_slot_check(local, None) <==> forall|i: int|
            0 <= i < local.len() - 1 ==> (#[trigger] local[i]).slot != local[i + 1].slot,
        is_slot_check(local, error) && error is Some ==> exists|i: int|
            0 <= i < local.len() - 1 && (#[trigger] local[i]).slot == local[i + 1].slot && error
                == Some(EngineError::DuplicateSlot(local[i].slot)),
{
    if forall|i: int|
        0 <= i < local.len() - 1 ==> (#[trigger] local[i]).slot != local[i + 1].slot {
        assert forall|i: int| !#[trigger] repeats_slot(local, i) by {}
    }
    if is_slot_check(local, None) {
        assert forall|i: int| 0 <= i < local.len() - 1 implies (#[trigger] local[i]).slot
            != local[i + 1].slot by {
            assert(!repeats_slot(local, i));
        }
    }
    if is_slot_check(local, error) && error is Some {
        let i = choose|i: int| #[trigger]
            repeats_slot(local, i) && error.unwrap() == EngineError::DuplicateSlot(local[i].slot)
                && forall|k: int| k < i ==> !#[trigger] repeats_slot(local, k);
        assert(local[i].slot == local[i + 1].slot);
    }
}

/// The next save of a synchronization is the one at its position, and its counterpart is the first
/// save on Steam of the same slot.
pub proof fn saves_are_dealt_with_in_their_order(pass: PassView, at: int)
    ensures
        0 <= pass.next < pass.local.len() ==> next_local(pass) == pass.local[pass.next]
            && in_progress(pass),
        pass.next >= pass.local.len() ==> !in_progress(pass),
        0 <= at < pass.remote.len() && pass.remote[at].save.slot == next_local(pass).slot && (forall|
            k: int,
        | 0 <= k < at ==> (#[trigger] pass.remote[k]).save.slot != next_local(pass).slot)
            ==> counterpart(pass) == Some(pass.remote[at]),
        counterpart(pass) is None <==> forall|k: int|
            0 <= k < pass.remote.len() ==> (#[trigger] pass.remote[k]).save.slot != next_local(
                pass,
            ).slot,
{
    let slot = next_local(pass).slot;
    remote_save_is_the_first_of_its_slot(pass.remote, slot);
    if 0 <= at < pass.remote.len() && pass.remote[at].save.slot == slot && (forall|k: int|
        0 <= k < at ==> (#[trigger] pass.remote[k]).save.slot != slot) {
        if counterpart(pass) is None {
            assert(pass.remote[at].save.slot != slot);
        } else {
            let i = choose|i: int|
                0 <= i < pass.remote.len() && (#[trigger] pass.remote[i]) == counterpart(
                    pass,
                ).unwrap() && pass.remote[i].save.slot == slot && forall|k: int|
                    0 <= k < i ==> (#[trigger] pass.remote[k]).save.slot != slot;
            assert(i == at);
        }
    }
}

/// What is remembered is ordered by the names on Steam, by their first difference.
pub proof fn entries_are_ordered_by_name(a: FileStateView, b: FileStateView)
    ensures
        FileSyncState::precedes(a, b) <==> exists|at: int| #[trigger]
            differs_at_chars(a.remote_name, b.remote_name, at),
{
    texts_are_ordered_by_the_first_difference(a.remote_name, b.remote_name);
}

} // verus!
