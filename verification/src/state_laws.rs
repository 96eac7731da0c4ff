//! What is remembered and what is shown, told by what happened.
use vstd::prelude::*;

use crate::lookup_laws::backup_is_the_first_of_its_id;
use crate::model::{BackupView, RestoreView, SyncView};
use crate::slots::ascending;
use crate::status::{
    added_detail, final_detail, final_phase, first_status, is_lasting_phase, prompt_detail,
    prompt_kind, resolved_detail, resolved_status, status_when_account_found,
    status_when_achievements_failed, status_when_backup_queued, status_when_begin_operation,
    status_when_begin_sign_in, status_when_cancelling_sign_in, status_when_comparing_achievements,
    status_when_connected, status_when_disconnected, status_when_exclude, status_when_offline,
    status_when_operation_failed, status_when_operation_succeeded, status_when_presence,
    status_when_report_achievement_result, status_when_saves_listed, status_when_show_prompt,
    status_when_show_qr, status_when_sign_in_cancelled, status_when_sync_finished,
    status_when_sync_started, ChoiceView, CredentialPrompt, StatusView, SummaryView,
};
use crate::sync_state::{
    approved_backup, bound, restore_outcome, restore_queued, without_restore, RestoreError,
};
use crate::text::decimal;

verus! {

/// The account of a state: it is the new one, under its new name if it has one. What belongs to
/// another account is forgotten, and what belongs to the same one, or to none yet, is kept. A
/// restore that was queued on the device is kept in any case.
pub proof fn states_belong_to_one_account(
    state: SyncView,
    steam_id: u64,
    account_name: Option<Seq<char>>,
)
    ensures
        ({
            let after = bound(state, steam_id, account_name);
            let other = state.steam_id is Some && state.steam_id != Some(steam_id);
            &&& after.steam_id == Some(steam_id)
            &&& account_name is Some ==> after.account_name == account_name
            &&& account_name is None ==> after.account_name == state.account_name
            &&& after.pending_local_restore == state.pending_local_restore
            &&& other ==> after.files.len() == 0 && after.cloud_change_number is None && forall|
                slot: u8,
            | !#[trigger] after.pending_remote_pulls.dom().contains(slot)
            &&& !other ==> after.files == state.files && after.cloud_change_number
                == state.cloud_change_number && after.pending_remote_pulls
                == state.pending_remote_pulls
        }),
{
}

/// A queued backup is restored exactly where it is still there, is of the slot that it was queued
/// for and still has the contents that were approved.
pub proof fn only_approved_backups_are_restored(pending: RestoreView, records: Seq<BackupView>)
    ensures
        match approved_backup(pending, records) {
            Ok(record) => records.contains(record) && record.backup_id == pending.backup_id
                && record.slot == pending.slot && record.sha256 == pending.expected_sha256,
            Err(RestoreError::QueuedNotFound) => forall|k: int|
                0 <= k < records.len() ==> (#[trigger] records[k]).backup_id != pending.backup_id,
            Err(RestoreError::ManifestChanged) => exists|i: int|
                0 <= i < records.len() && (#[trigger] records[i]).backup_id == pending.backup_id && (
                records[i].slot != pending.slot || records[i].sha256 != pending.expected_sha256)
                    && forall|k: int|
                    0 <= k < i ==> (#[trigger] records[k]).backup_id != pending.backup_id,
            Err(_) => false,
        },
{
    backup_is_the_first_of_its_id(records, pending.backup_id);
}

/// What a synchronization ends in. Nothing is open where no question is left and no upload waits.
/// Else a conflict counts first, then a replacement that waits for the next start, then uploads
/// that wait, and then the questions of a first synchronization.
pub proof fn open_questions_decide_the_phase(choices: Seq<ChoiceView>, waiting: usize)
    ensures
        ({
            let conflict = exists|i: int|
                0 <= i < choices.len() && (#[trigger] choices[i]).kind == "conflict"@;
            let restart = exists|i: int|
                0 <= i < choices.len() && (#[trigger] choices[i]).kind
                    == "remote_update_restart_required"@;
            let (phase, detail) = (final_phase(choices, waiting), final_detail(choices, waiting));
            &&& choices.len() == 0 && waiting == 0 ==> phase == "idle"@ && detail
                == "Steam Cloud is synchronized"@
            &&& conflict ==> phase == "conflict"@ && detail
                == "A true save conflict requires your choice"@
            &&& !conflict && restart ==> phase == "restart_required"@ && detail
                == "Relaunch Isaac to apply the selected Steam save safely"@
            &&& !conflict && !restart && waiting > 0 ==> phase == "upload_required"@
            &&& !conflict && !restart && waiting == 1 ==> detail
                == "iPhone progress is waiting; tap Sync Now to upload a Windows-compatible save"@
            &&& !conflict && !restart && waiting > 1 ==> detail == decimal(waiting as nat)
                + " iPhone saves are waiting; tap Sync Now to upload them"@
            &&& !conflict && !restart && waiting == 0 && choices.len() > 0 ==> phase
                == "first_sync"@ && detail == "First sync requires your choice"@
        }),
{
}

/// The phases that stay until the user acts, or until Steam can be reached again.
pub proof fn lasting_phases_wait_for_the_user(phase: Seq<char>)
    ensures
        is_lasting_phase("conflict"@),
        is_lasting_phase("first_sync"@),
        is_lasting_phase("offline"@),
        is_lasting_phase("restart_required"@),
        is_lasting_phase("upload_required"@),
        is_lasting_phase(phase) ==> phase == "conflict"@ || phase == "first_sync"@ || phase
            == "offline"@ || phase == "restart_required"@ || phase == "upload_required"@,
{
}

/// A decision is told with its slot: the slot's questions are gone, those of other slots stay, and
/// a decision for Steam's version asks for a new start.
pub proof fn decisions_are_told(status: StatusView, slot: u8, use_local: bool, choice: ChoiceView)
    ensures
        ({
            let after = resolved_status(status, slot, use_local);
            &&& after.pending_choices.contains(choice) <==> status.pending_choices.contains(choice)
                && choice.slot != slot
            &&& use_local ==> after.phase == status.phase && after.detail == "Slot "@ + decimal(
                slot as nat,
            ) + " resolved and verified"@
            &&& !use_local ==> after.phase == "restart_required"@ && after.detail == "Slot "@
                + decimal(slot as nat)
                + " Steam save is verified and queued; relaunch Isaac to apply it"@
            &&& after.local_saves == status.local_saves && after.remote_saves
                == status.remote_saves && after.authenticated == status.authenticated
            &&& after.steam_id == status.steam_id && after.last_sync_unix_ms
                == status.last_sync_unix_ms && after.backup_count == status.backup_count
        }),
{
    broadcast use vstd::seq_lib::group_filter_ensures;

    let other = |choice: ChoiceView| choice.slot != slot;
    let all = status.pending_choices;
    if all.filter(other).contains(choice) {
        all.lemma_filter_contains_rev(other, choice);
    }
    if all.contains(choice) && other(choice) {
        let i = choose|i: int| 0 <= i < all.len() && all[i] == choice;
        assert(all.filter(other).contains(all[i]));
    }
    assert(resolved_detail(slot, use_local) == "Slot "@ + decimal(slot as nat) + (if use_local {
        " resolved and verified"@
    } else {
        " Steam save is verified and queued; relaunch Isaac to apply it"@
    }));
}

/// How many achievements were added is told in words.
pub proof fn added_achievements_are_told(added: usize)
    ensures
        added == 0 ==> added_detail(added)
            == "Steam Cloud and save-derived achievements are synchronized"@,
        added == 1 ==> added_detail(added)
            == "Steam Cloud synchronized; 1 missing save achievement added to Steam"@,
        added > 1 ==> added_detail(added) == "Steam Cloud synchronized; "@ + decimal(added as nat)
            + " missing save achievements added to Steam"@,
{
}

/// Each way to confirm a sign-in is told by its own name and text.
pub proof fn prompts_are_told()
    ensures
        prompt_kind(CredentialPrompt::EmailCode) == "email_code"@,
        prompt_kind(CredentialPrompt::DeviceCode) == "device_code"@,
        prompt_kind(CredentialPrompt::DeviceConfirmation) == "device_confirmation"@,
        prompt_detail(CredentialPrompt::EmailCode) == "Enter the Steam Guard email code"@,
        prompt_detail(CredentialPrompt::DeviceCode) == "Enter the Steam Guard code"@,
        prompt_detail(CredentialPrompt::DeviceConfirmation)
            == "Approve this sign-in in Steam Mobile"@,
{
}

/// At first nobody is signed in, nothing is known, and the game can be played.
pub proof fn play_is_allowed_from_the_start()
    ensures
        ({
            let status = first_status();
            &&& status.phase == "idle"@ && status.detail == "Not connected"@
            &&& !status.authenticated && !status.account_connected && !status.steam_playing
            &&& status.steam_id is None && status.qr_url is None && status.guard_kind is None
            &&& status.last_sync_unix_ms is None && status.backup_count == 0
            &&& status.offline_play_allowed
            &&& status.local_saves.len() == 0 && status.remote_saves.len() == 0
            &&& status.pending_choices.len() == 0 && status.excluded_slots.len() == 0
        }),
{
}

/// Whether two statuses know the same saves, questions and backups.
pub open spec fn knows_the_same(a: StatusView, b: StatusView) -> bool {
    &&& a.local_saves == b.local_saves && a.remote_saves == b.remote_saves
    &&& a.pending_choices == b.pending_choices && a.backup_count == b.backup_count
    &&& a.last_sync_unix_ms == b.last_sync_unix_ms && a.excluded_slots == b.excluded_slots
}

/// Whether two statuses are of the same session.
pub open spec fn is_signed_in_alike(a: StatusView, b: StatusView) -> bool {
    &&& a.authenticated == b.authenticated && a.account_connected == b.account_connected
    &&& a.steam_id == b.steam_id && a.steam_playing == b.steam_playing
    &&& a.offline_play_allowed == b.offline_play_allowed
}

/// Whether two statuses ask for the same confirmation of a sign-in.
pub open spec fn asks_alike(a: StatusView, b: StatusView) -> bool {
    a.qr_url == b.qr_url && a.guard_kind == b.guard_kind
}

/// How a sign-in is shown: what has to be confirmed is shown while it has to be, and is gone when
/// the sign-in begins anew, is cancelled or has succeeded. Only success signs in, with the account
/// that it was for.
pub proof fn sign_ins_are_shown(
    status: StatusView,
    by_password: bool,
    url: Seq<char>,
    prompt: CredentialPrompt,
    steam_id: u64,
)
    ensures
        ({
            let begun = status_when_begin_sign_in(status, by_password);
            let code = status_when_show_qr(status, url);
            let asked = status_when_show_prompt(status, prompt);
            let cancelled = status_when_sign_in_cancelled(status);
            let cancelling = status_when_cancelling_sign_in(status);
            let connected = status_when_connected(status, steam_id);
            &&& begun.qr_url is None && begun.guard_kind is None && begun.phase == status.phase
            &&& by_password ==> begun.detail == "Signing in to Steam…"@
            &&& !by_password ==> begun.detail == "Connecting to Steam…"@
            &&& code.phase == "awaiting_steam_guard"@ && code.qr_url == Some(url)
                && code.guard_kind == Some("qr"@)
            &&& code.detail == "Approve this sign-in with Steam Mobile"@
            &&& asked.phase == "awaiting_steam_guard"@ && asked.qr_url is None && asked.guard_kind
                == Some(prompt_kind(prompt)) && asked.detail == prompt_detail(prompt)
            &&& cancelled.phase == "idle"@ && cancelled.qr_url is None
                && cancelled.guard_kind is None
            &&& cancelled.detail == "Steam sign-in cancelled"@
            &&& cancelling.phase == "cancelling"@ && cancelling.qr_url is None
                && cancelling.guard_kind is None
            &&& cancelling.detail == "Cancelling Steam sign-in…"@
            &&& connected.authenticated && connected.account_connected && connected.steam_id
                == Some(steam_id) && connected.qr_url is None && connected.guard_kind is None
            &&& connected.phase == status.phase && connected.detail == "Steam connected"@
            &&& connected.steam_playing == status.steam_playing
            &&& connected.offline_play_allowed == status.offline_play_allowed
            &&& is_signed_in_alike(begun, status) && is_signed_in_alike(code, status)
                && is_signed_in_alike(asked, status)
            &&& is_signed_in_alike(cancelled, status) && is_signed_in_alike(cancelling, status)
            &&& knows_the_same(begun, status) && knows_the_same(code, status) && knows_the_same(
                asked,
                status,
            )
            &&& knows_the_same(cancelled, status) && knows_the_same(cancelling, status)
                && knows_the_same(connected, status)
        }),
{
}

/// How the account is shown: a stored credential connects it without signing it in, presence is
/// shown as it is, and ending the session forgets everything but that the game can be played.
pub proof fn accounts_are_shown(status: StatusView, playing: bool)
    ensures
        ({
            let found = status_when_account_found(status);
            let seen = status_when_presence(status, playing);
            let ended = status_when_disconnected(status);
            &&& found.account_connected && found.authenticated == status.authenticated
                && found.phase == status.phase && found.detail == "Steam account connected"@
            &&& found.steam_id == status.steam_id && found.steam_playing == status.steam_playing
            &&& knows_the_same(found, status) && asks_alike(found, status)
            &&& seen.steam_playing == playing && seen.phase == status.phase && seen.detail
                == status.detail && seen.authenticated == status.authenticated
            &&& seen.account_connected == status.account_connected && seen.steam_id
                == status.steam_id
            &&& knows_the_same(seen, status) && asks_alike(seen, status)
            &&& ended.phase == "idle"@ && ended.detail == "Disconnected from Steam"@
            &&& !ended.authenticated && !ended.account_connected && ended.steam_id is None
                && !ended.steam_playing && ended.offline_play_allowed
            &&& knows_the_same(ended, first_status()) && asks_alike(ended, first_status())
        }),
{
}

/// Whatever fails, the game can be played: a failure is shown with its message, what is known
/// stays, and a failed operation ends the session, while the lack of a connection does not.
pub proof fn play_is_allowed_behind_every_failure(
    status: StatusView,
    message: Seq<char>,
    phase: Seq<char>,
)
    ensures
        ({
            let offline = status_when_offline(status, message);
            let failed = status_when_operation_failed(status, message);
            let begun = status_when_begin_operation(status, phase);
            let succeeded = status_when_operation_succeeded(status);
            &&& offline.offline_play_allowed && offline.phase == "offline"@ && offline.detail
                == message
            &&& offline.authenticated == status.authenticated && offline.steam_playing
                == status.steam_playing && offline.account_connected == status.account_connected
            &&& failed.offline_play_allowed && failed.phase == "error"@ && failed.detail == message
            &&& !failed.authenticated && !failed.steam_playing && failed.account_connected
                == status.account_connected && failed.steam_id == status.steam_id
            &&& begun.phase == phase && begun.detail == phase && is_signed_in_alike(begun, status)
            &&& succeeded.detail == status.detail && is_signed_in_alike(succeeded, status)
            &&& is_lasting_phase(status.phase) ==> succeeded.phase == status.phase
            &&& !is_lasting_phase(status.phase) ==> succeeded.phase == "idle"@
            &&& knows_the_same(offline, status) && knows_the_same(failed, status)
            &&& knows_the_same(begun, status) && knows_the_same(succeeded, status)
            &&& asks_alike(offline, status) && asks_alike(failed, status) && asks_alike(
                begun,
                status,
            ) && asks_alike(succeeded, status)
        }),
{
}

/// How achievements are shown: only where nothing else is to be told, which is while the status is
/// idle or a synchronization runs.
pub proof fn achievements_do_not_hide_questions(
    status: StatusView,
    added: usize,
    message: Seq<char>,
)
    ensures
        ({
            let comparing = status_when_comparing_achievements(status);
            let done = status_when_report_achievement_result(status, added);
            let failed = status_when_achievements_failed(status, message);
            let free = status.phase == "idle"@ || status.phase == "syncing"@;
            &&& status.phase == "idle"@ ==> comparing.phase == "syncing"@ && comparing.detail
                == "Comparing native save achievements with Steam…"@
            &&& status.phase != "idle"@ ==> comparing == status
            &&& free ==> done.detail == added_detail(added) && done.phase == status.phase
            &&& free ==> failed.phase == "idle"@ && failed.detail
                == "Steam Cloud synchronized; achievement sync failed: "@ + message
            &&& !free ==> done == status && failed == status
            &&& knows_the_same(comparing, status) && knows_the_same(done, status)
                && knows_the_same(failed, status)
            &&& is_signed_in_alike(comparing, status) && is_signed_in_alike(done, status)
                && is_signed_in_alike(failed, status)
        }),
{
}

/// How a synchronization is shown: at its start the old questions are gone; then the saves of both
/// sides and the excluded slots are those that were found; and at its end the questions, the
/// number of backups and the time are those that it came to.
pub proof fn synchronizations_are_shown(
    status: StatusView,
    excluded: Set<u8>,
    local: Seq<SummaryView>,
    remote: Seq<SummaryView>,
    choices: Seq<ChoiceView>,
    backups: usize,
    now: u64,
    waiting: usize,
)
    ensures
        ({
            let begun = status_when_sync_started(status);
            let listed = status_when_saves_listed(status, excluded, local, remote);
            let ended = status_when_sync_finished(status, choices, backups, now, waiting);
            let queued = status_when_backup_queued(status);
            let known = status_when_exclude(status, excluded);
            &&& begun.phase == "syncing"@ && begun.detail == "Discovering Isaac saves…"@
            &&& begun.pending_choices.len() == 0 && begun.local_saves == status.local_saves
                && begun.remote_saves == status.remote_saves
            &&& listed.local_saves == local && listed.remote_saves == remote && listed.phase
                == status.phase && listed.detail == "Comparing local, Steam, and base hashes…"@
            &&& listed.excluded_slots == known.excluded_slots && listed.pending_choices
                == status.pending_choices
            &&& ended.pending_choices == choices && ended.backup_count == backups
                && ended.last_sync_unix_ms == Some(now)
            &&& ended.phase == final_phase(choices, waiting) && ended.detail == final_detail(
                choices,
                waiting,
            )
            &&& ended.local_saves == status.local_saves && ended.remote_saves
                == status.remote_saves
            &&& queued.phase == "restart_required"@ && queued.detail
                == "Backup verified and queued; relaunch Isaac to restore it safely"@
            &&& knows_the_same(queued, status) && is_signed_in_alike(queued, status)
            &&& known.phase == status.phase && known.detail == status.detail && is_signed_in_alike(
                known,
                status,
            )
            &&& is_signed_in_alike(begun, status) && is_signed_in_alike(listed, status)
                && is_signed_in_alike(ended, status)
        }),
{
}

/// The excluded slots are shown in ascending order, each once.
pub proof fn excluded_slots_are_shown_in_order(status: StatusView, excluded: Set<u8>, slot: u8)
    ensures
        ({
            let shown = status_when_exclude(status, excluded).excluded_slots;
            &&& shown.contains(slot) <==> excluded.contains(slot)
            &&& forall|i: int, j: int|
                0 <= i < j < shown.len() ==> #[trigger] shown[i] < #[trigger] shown[j]
        }),
{
    slots_ascend_to(excluded, 256, slot);
}

proof fn slots_ascend_to(slots: Set<u8>, limit: nat, slot: u8)
    requires
        limit <= 256,
    ensures
        ({
            let list = ascending(slots, limit);
            &&& list.contains(slot) <==> slots.contains(slot) && slot < limit
            &&& forall|i: int| 0 <= i < list.len() ==> #[trigger] list[i] < limit
            &&& forall|i: int, j: int|
                0 <= i < j < list.len() ==> #[trigger] list[i] < #[trigger] list[j]
        }),
    decreases limit,
{
    if limit > 0 {
        slots_ascend_to(slots, (limit - 1) as nat, slot);
        let before = ascending(slots, (limit - 1) as nat);
        let list = ascending(slots, limit);
        if before.contains(slot) {
            let k = choose|k: int| 0 <= k < before.len() && before[k] == slot;
            assert(list[k] == slot);
        }
        if slots.contains((limit - 1) as u8) {
            assert(list[list.len() - 1] == (limit - 1) as u8);
            if list.contains(slot) && slot != (limit - 1) as u8 {
                let k = choose|k: int| 0 <= k < list.len() && list[k] == slot;
                assert(before[k] == slot);
            }
        }
    }
}

/// A backup is queued with its slot and its contents, which are then what was approved; a restore
/// that was carried out is forgotten, and it is carried out only ahead of a start. Nothing else of
/// the state changes.
pub proof fn restores_are_queued_for_the_next_start(
    state: SyncView,
    record: BackupView,
    now: u64,
    allowed: bool,
)
    ensures
        ({
            let queued = restore_queued(state, record, now);
            let done = without_restore(state);
            &&& queued.pending_local_restore matches Some(restore) && restore.backup_id
                == record.backup_id && restore.slot == record.slot && restore.expected_sha256
                == record.sha256 && restore.requested_unix_ms == now
            &&& done.pending_local_restore is None
            &&& queued.files == state.files && done.files == state.files
            &&& queued.pending_remote_pulls == state.pending_remote_pulls
            &&& done.pending_remote_pulls == state.pending_remote_pulls
            &&& queued.steam_id == state.steam_id && done.steam_id == state.steam_id
            &&& queued.account_name == state.account_name && done.account_name == state.account_name
            &&& queued.cloud_change_number == state.cloud_change_number
            &&& done.cloud_change_number == state.cloud_change_number
        }),
        restore_outcome(true) is Ok,
        restore_outcome(false) == Err::<(), RestoreError>(RestoreError::NotPrelaunch),
        approved_backup(
            restore_queued(state, record, now).pending_local_restore.unwrap(),
            seq![record],
        ) == Ok::<BackupView, RestoreError>(record),
{
    reveal_with_fuel(crate::sync_state::backup_with_id, 2);
}

} // verus!
