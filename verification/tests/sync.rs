use isaac_cloud_sync::cloud::{AppFileInfo, CloudFile};
use isaac_cloud_sync::digest::{identity_for_bytes, sha1_digest};
use isaac_cloud_sync::engine::{
    ensure_unique_slots, local_in_scope, local_source, local_summaries, missing_remote_choice,
    remote_for_slot, remote_in_scope, remote_slots, remote_summaries, upload_allowed, ChoiceKind,
    EngineError, LocalSource,
};
use isaac_cloud_sync::exchange::{
    check_contents_unchanged, check_force, check_local_unchanged, check_not_created,
    check_remote_bytes, check_remote_listed, check_replacement_allowed, finish_pull, finish_push,
    local_for_slot, merge_restored, new_remote_name, prepare_upload, RemoteCheck,
};
use isaac_cloud_sync::force::{force_step, ForceStep};
use isaac_cloud_sync::isaac_crc::isaac_crc32;
use isaac_cloud_sync::isaac_format::{convert_rep_to_rep_plus, SaveError};
use isaac_cloud_sync::model::{
    BackupRecord, BackupSource, EntryName, FileIdentity, LocalSave, RemoteSave, SandboxPath,
    SyncState,
};
use isaac_cloud_sync::report::{is_running, is_transient_cm_close, safe_error, short_hash};
use isaac_cloud_sync::slot_sync::{
    backup_sources, evaluate_remote, plan_slot, pull_bytes, PassAction, SlotPlan, SlotStep, SyncPass,
    SyncRun,
};
use isaac_cloud_sync::status::{CredentialPrompt, PendingChoice, StatusSnapshot};
use isaac_cloud_sync::sync_engine::{decide, decision_label, SyncDecision};
use isaac_cloud_sync::sync_state::{
    backup_to_restore, bind_state_to_account, check_restore_allowed, forget_remote_pull,
    make_file_state, prior_entry, queue_remote_pull, queue_restore, queued_backup, restore_done,
    upsert_state, RestoreError,
};
use isaac_cloud_sync::transfer::upload_verified;
use std::collections::{BTreeMap, BTreeSet};

fn identity(sha256: &str) -> FileIdentity {
    FileIdentity {
        sha256: sha256.to_owned(),
        size: 3,
        modified_unix_ms: Some(1),
        steam_sha1: Some("listed".to_owned()),
    }
}

fn local(slot: u8, sha256: &str) -> LocalSave {
    let file = format!("rep_persistentgamedata{slot}.dat");
    LocalSave {
        slot,
        path: SandboxPath {
            components: vec![
                EntryName { bytes: b"Documents".to_vec(), text: "Documents".to_owned(), utf8: true },
                EntryName { bytes: file.clone().into_bytes(), text: file.clone(), utf8: true },
            ],
        },
        relative_path: format!("Documents/{file}"),
        identity: identity(sha256),
    }
}

fn remote(slot: u8) -> CloudFile {
    let name = format!("rep_persistentgamedata{slot}.dat");
    CloudFile {
        save: RemoteSave {
            slot,
            filename: name.clone(),
            path_prefix: String::new(),
            identity: FileIdentity {
                sha256: String::new(),
                size: 9,
                modified_unix_ms: Some(7000),
                steam_sha1: Some("cloud".to_owned()),
            },
        },
        raw: AppFileInfo {
            file_name: Some(name.clone()),
            sha_file: None,
            time_stamp: Some(7),
            raw_file_size: Some(9),
            persist_state: None,
            path_prefix_index: None,
        },
        request_name: name,
    }
}

fn state() -> SyncState {
    SyncState {
        steam_id: Some(1),
        account_name: Some("name".to_owned()),
        files: vec![],
        cloud_change_number: Some(4),
        pending_remote_pulls: BTreeMap::new(),
        pending_local_restore: None,
    }
}

fn repentance_save(marker: u8) -> Vec<u8> {
    let mut bytes = b"ISAACNGSAVE09R  ".to_vec();
    bytes.extend_from_slice(&[marker, 0, 0, 0]);
    let push = |bytes: &mut Vec<u8>, kind: u32, size: u32, count: u32| {
        bytes.extend_from_slice(&kind.to_le_bytes());
        bytes.extend_from_slice(&size.to_le_bytes());
        bytes.extend_from_slice(&count.to_le_bytes());
    };
    push(&mut bytes, 1, 638, 638);
    bytes.extend(vec![1; 638]);
    push(&mut bytes, 2, 1984, 496);
    bytes.extend(vec![marker; 1984]);
    for section in 3..=10 {
        push(&mut bytes, section, 0, 0);
    }
    push(&mut bytes, 11, 0, 4);
    for subtype in [4_u32, 2, 3, 1] {
        bytes.extend_from_slice(&subtype.to_le_bytes());
        bytes.extend_from_slice(&0_u32.to_le_bytes());
    }
    bytes.extend_from_slice(&[0; 4]);
    let checksum = isaac_crc32(&bytes[16..], 0xfedc_ba76);
    bytes.extend_from_slice(&checksum.to_le_bytes());
    bytes
}

fn literal_only_lz4(bytes: &[u8]) -> Vec<u8> {
    let mut encoded = vec![0xf0];
    let mut remaining = bytes.len() - 15;
    while remaining >= 255 {
        encoded.push(255);
        remaining -= 255;
    }
    encoded.push(remaining as u8);
    encoded.extend_from_slice(bytes);
    encoded
}

/// A state in which slot 1 was last synchronized as `base`.
fn synced(base: &str) -> SyncState {
    let mut state = state();
    let entry = make_file_state(&local(1, base), &remote(1), &identity(base), 5);
    upsert_state(&mut state, entry);
    state
}

#[test]
fn comparison_follows_the_table() {
    assert_eq!(decide(Some("b"), "b", "b"), SyncDecision::Unchanged);
    assert_eq!(decide(Some("b"), "l", "b"), SyncDecision::UploadLocal);
    assert_eq!(decide(Some("b"), "b", "r"), SyncDecision::DownloadRemote);
    assert_eq!(decide(Some("b"), "x", "x"), SyncDecision::Converged);
    assert_eq!(decide(Some("b"), "l", "r"), SyncDecision::Conflict);
    assert_eq!(decide(None, "l", "r"), SyncDecision::FirstSyncChoiceRequired);
    assert_eq!(decision_label(SyncDecision::Conflict), "true divergence");
    assert_eq!(decision_label(SyncDecision::Unchanged), "unchanged");
}

#[test]
fn updates_keep_one_entry_for_each_slot() {
    let mut state = synced("a");
    let entry = make_file_state(&local(2, "b"), &remote(2), &identity("b"), 6);
    upsert_state(&mut state, entry);
    let mut renamed = remote(1);
    renamed.request_name = "zzz".to_owned();
    let entry = make_file_state(&local(1, "c"), &renamed, &identity("c"), 7);
    upsert_state(&mut state, entry);
    let names: Vec<&str> = state.files.iter().map(|file| file.remote_name.as_str()).collect();
    assert_eq!(names, vec!["rep_persistentgamedata2.dat", "zzz"]);
    let entry = prior_entry(&state, 1).unwrap();
    assert_eq!(entry.base_sha256, "c");
    assert_eq!(entry.base_steam_sha1.as_deref(), Some("listed"));
    assert_eq!(entry.last_successful_sync_unix_ms, 7);
    assert!(prior_entry(&state, 3).is_none());
    // An entry of the same name in another slot gives way too.
    let mut taken = remote(3);
    taken.request_name = "zzz".to_owned();
    let entry = make_file_state(&local(3, "d"), &taken, &identity("d"), 8);
    upsert_state(&mut state, entry);
    assert!(prior_entry(&state, 1).is_none());
    assert_eq!(state.files.len(), 2);
}

#[test]
fn another_account_starts_over() {
    let mut state = synced("a");
    queue_remote_pull(&mut state, 1, &remote(1), 9);
    assert!(!bind_state_to_account(&mut state, 1, None));
    assert_eq!(state.files.len(), 1);
    assert_eq!(state.account_name.as_deref(), Some("name"));
    assert!(bind_state_to_account(&mut state, 2, Some("other".to_owned())));
    assert_eq!(state.steam_id, Some(2));
    assert_eq!(state.account_name.as_deref(), Some("other"));
    assert!(state.files.is_empty());
    assert!(state.pending_remote_pulls.is_empty());
    assert_eq!(state.cloud_change_number, None);
}

#[test]
fn pulls_are_queued_and_forgotten() {
    let mut state = state();
    queue_remote_pull(&mut state, 2, &remote(2), 9);
    let pull = &state.pending_remote_pulls[&2];
    assert_eq!(pull.remote_name, "rep_persistentgamedata2.dat");
    assert_eq!(pull.expected_steam_sha1.as_deref(), Some("cloud"));
    assert_eq!(pull.requested_unix_ms, 9);
    forget_remote_pull(&mut state, 2);
    assert!(state.pending_remote_pulls.is_empty());
}

fn record(id: &str, slot: u8, sha256: &str) -> BackupRecord {
    BackupRecord {
        backup_id: id.to_owned(),
        slot,
        filename: "rep_persistentgamedata1.dat".to_owned(),
        sha256: sha256.to_owned(),
    }
}

#[test]
fn only_the_approved_backup_is_restored() {
    let records = vec![record("a", 1, "x"), record("b", 2, "y")];
    assert_eq!(backup_to_restore(&records, "b").unwrap().slot, 2);
    assert_eq!(backup_to_restore(&records, "c").unwrap_err(), RestoreError::NotFound);
    let mut state = state();
    queue_restore(&mut state, &records[1], 12);
    let pending = state.pending_local_restore.clone().unwrap();
    assert_eq!((pending.slot, pending.requested_unix_ms), (2, 12));
    assert_eq!(queued_backup(&pending, &records).unwrap().backup_id, "b");
    assert_eq!(
        queued_backup(&pending, &vec![record("b", 2, "z")]).unwrap_err(),
        RestoreError::ManifestChanged
    );
    assert_eq!(
        queued_backup(&pending, &vec![record("b", 1, "y")]).unwrap_err(),
        RestoreError::ManifestChanged
    );
    assert_eq!(
        queued_backup(&pending, &vec![]).unwrap_err().message(),
        "queued backup no longer exists"
    );
    assert_eq!(check_restore_allowed(true), Ok(()));
    assert_eq!(check_restore_allowed(false), Err(RestoreError::NotPrelaunch));
    restore_done(&mut state);
    assert!(state.pending_local_restore.is_none());
}

#[test]
fn triggers_decide_what_takes_part() {
    assert!(upload_allowed("manual"));
    assert!(!upload_allowed("foreground"));
    assert_eq!(local_source("prelaunch"), LocalSource::Preflight);
    assert_eq!(local_source("manual"), LocalSource::All);
    assert_eq!(local_source("connect"), LocalSource::RemoteSlots);
    let files = remote_in_scope(&vec![remote(1), remote(2)], &BTreeSet::from([2]));
    assert_eq!(files.len(), 1);
    assert_eq!(remote_slots(&files), BTreeSet::from([1]));
    assert!(remote_for_slot(&files, 2).is_none());
    let kept = local_in_scope("prelaunch", vec![local(1, "a"), local(2, "b")], &files).unwrap();
    assert_eq!(kept.len(), 1);
    let kept = local_in_scope("manual", vec![local(1, "a"), local(2, "b")], &files).unwrap();
    assert_eq!(kept.len(), 2);
    assert_eq!(
        local_in_scope("prelaunch", vec![local(3, "a")], &files).unwrap_err().message(),
        "no matching Isaac persistent save files were found inside the app sandbox"
    );
}

#[test]
fn neighbours_of_one_slot_are_refused() {
    assert_eq!(ensure_unique_slots(vec![local(1, "a"), local(2, "b")]).unwrap().len(), 2);
    assert_eq!(ensure_unique_slots(vec![]).unwrap().len(), 0);
    let error = ensure_unique_slots(vec![local(1, "a"), local(2, "b"), local(2, "c")]).unwrap_err();
    assert_eq!(error, EngineError::DuplicateSlot(2));
    assert_eq!(error.message(), "multiple local save candidates found for slot 2");
}

#[test]
fn summaries_show_what_is_known() {
    let shown = local_summaries(&vec![local(1, "a")]);
    assert_eq!(shown[0].filename, "Documents/rep_persistentgamedata1.dat");
    assert_eq!(shown[0].sha256.as_deref(), Some("a"));
    let shown = remote_summaries(&vec![remote(1)]);
    assert_eq!(shown[0].filename, "rep_persistentgamedata1.dat");
    assert_eq!(shown[0].sha256, None);
    assert_eq!(shown[0].size, 9);
    let choice = missing_remote_choice(&local(2, "a"));
    assert_eq!(choice.kind, "first_sync_remote_missing");
    assert_eq!(choice.remote.filename, "Not present on Steam");
    assert_eq!(choice.remote_name, "rep_persistentgamedata2.dat");
}

#[test]
fn copies_are_compared_in_the_repentance_layout() {
    let save = repentance_save(3);
    let copy = evaluate_remote(&save, &remote(1), 1).unwrap();
    assert_eq!(copy.normalized, save);
    assert!(!copy.needs_repair);
    assert_eq!(copy.identity.sha256, identity_for_bytes(&save).sha256);
    assert_eq!(copy.identity.modified_unix_ms, Some(7000));
    assert_eq!(copy.identity.steam_sha1.as_deref(), Some("cloud"));
    let plus = convert_rep_to_rep_plus(&save).unwrap();
    let copy = evaluate_remote(&plus, &remote(1), 1).unwrap();
    assert_eq!(copy.canonical, plus);
    assert_eq!(copy.normalized, save);
    assert_eq!(pull_bytes(&copy, true), save);
    assert_eq!(pull_bytes(&copy, false), plus);
    let copy = evaluate_remote(&literal_only_lz4(&save), &remote(1), 1).unwrap();
    assert!(copy.needs_repair);
    let error = evaluate_remote(b"ISAACNGSAVE09R  ", &remote(1), 1).unwrap_err();
    assert!(matches!(error, EngineError::InvalidRemote { slot: 1, .. }));
    assert_eq!(
        error.message(),
        "Steam save slot 1 is not a valid canonical or iOS LZ4 Repentance save; exact cloud bytes were backed up: truncated Repentance save"
    );
}

fn step(state: &SyncState, sha256: &str, save: &[u8], upload: bool, replace: bool) -> SlotPlan {
    let copy = evaluate_remote(save, &remote(1), 1).unwrap();
    plan_slot(state, &local(1, sha256), &remote(1), &copy, upload, replace)
}

#[test]
fn slots_are_planned() {
    let save = repentance_save(3);
    let sha = identity_for_bytes(&save).sha256;
    let encoded = literal_only_lz4(&save);
    let plan = |state: &SyncState, sha256: &str, save: &[u8], upload: bool, replace: bool| {
        step(state, sha256, save, upload, replace).step
    };
    assert_eq!(plan(&synced(&sha), &sha, &save, true, true), SlotStep::Keep);
    assert_eq!(plan(&synced(&sha), &sha, &encoded, true, true), SlotStep::Push);
    assert_eq!(plan(&synced(&sha), &sha, &encoded, false, true), SlotStep::UploadWaits);
    assert_eq!(plan(&synced(&sha), "new", &save, true, true), SlotStep::Push);
    assert_eq!(plan(&synced(&sha), "new", &save, false, true), SlotStep::UploadWaits);
    assert_eq!(plan(&synced("old"), "old", &save, true, true), SlotStep::Pull { queued: false });
    assert_eq!(
        plan(&synced("old"), "old", &save, true, false),
        SlotStep::Choose(ChoiceKind::RestartRequired)
    );
    assert_eq!(
        plan(&synced("old"), &sha, &save, true, true),
        SlotStep::AdvanceBase { upload_waits: false }
    );
    assert_eq!(
        plan(&synced("old"), &sha, &encoded, false, true),
        SlotStep::AdvanceBase { upload_waits: true }
    );
    assert_eq!(plan(&synced("old"), &sha, &encoded, true, true), SlotStep::Push);
    assert_eq!(
        plan(&synced("old"), "new", &save, true, true),
        SlotStep::Choose(ChoiceKind::Conflict)
    );
    assert_eq!(
        plan(&state(), "new", &save, true, true),
        SlotStep::Choose(ChoiceKind::FirstSync)
    );
}

#[test]
fn queued_pulls_come_first() {
    let save = repentance_save(3);
    let mut state = synced("old");
    queue_remote_pull(&mut state, 1, &remote(1), 9);
    let plan = step(&state, "new", &save, true, true);
    assert_eq!(
        plan,
        SlotPlan { forget_pull: true, compared: None, step: SlotStep::Pull { queued: true } }
    );
    let plan = step(&state, "new", &save, true, false);
    assert_eq!(
        plan,
        SlotPlan {
            forget_pull: false,
            compared: None,
            step: SlotStep::Choose(ChoiceKind::RestartRequired)
        }
    );
    let mut other = remote(1);
    other.save.identity.steam_sha1 = Some("changed".to_owned());
    queue_remote_pull(&mut state, 1, &other, 9);
    let plan = step(&state, "new", &save, true, true);
    assert_eq!(
        plan,
        SlotPlan {
            forget_pull: true,
            compared: Some(SyncDecision::Conflict),
            step: SlotStep::Choose(ChoiceKind::Conflict)
        }
    );
}

#[test]
fn open_slots_are_backed_up_on_both_sides() {
    assert_eq!(
        backup_sources(SlotStep::Choose(ChoiceKind::FirstSync)),
        Some((BackupSource::LocalFirstSync, BackupSource::SteamFirstSync))
    );
    assert_eq!(
        backup_sources(SlotStep::Choose(ChoiceKind::Conflict)),
        Some((BackupSource::LocalConflict, BackupSource::SteamConflict))
    );
    assert_eq!(backup_sources(SlotStep::Choose(ChoiceKind::RestartRequired)), None);
    assert_eq!(backup_sources(SlotStep::Push), None);
}

#[test]
fn passes_deal_with_every_save_once() {
    let save = repentance_save(3);
    let sha = identity_for_bytes(&save).sha256;
    let pass = SyncPass::new(
        "foreground",
        vec![local(1, "new"), local(2, "b"), local(3, &sha)],
        vec![remote(1), remote(3)],
        synced(&sha),
    );
    let PassAction::Download { local: first, file } = pass.action() else {
        panic!("slot 1 is on Steam");
    };
    assert_eq!((first.slot, file.save.slot), (1, 1));
    assert_eq!(pass.plan(), None);
    assert!(pass.copy().is_none());
    let pass = pass.downloaded(save.clone(), false);
    assert_eq!(
        pass.plan(),
        Some(SlotPlan {
            forget_pull: false,
            compared: Some(SyncDecision::UploadLocal),
            step: SlotStep::UploadWaits
        })
    );
    assert_eq!(pass.copy().unwrap().identity.sha256, sha);
    assert_eq!(pass.base(1), Some(sha.as_str()));
    assert_eq!(pass.base(2), None);
    assert!(matches!(pass.action(), PassAction::Settle));
    let pass = pass.settle(20);
    let PassAction::BackupLocal { local: second, source } = pass.action() else {
        panic!("slot 2 is not on Steam");
    };
    assert_eq!((second.slot, source), (2, BackupSource::LocalFirstSync));
    let pass = pass.local_backed_up();
    assert!(matches!(pass.action(), PassAction::Download { local, .. } if local.slot == 3));
    let pass = pass.downloaded(save.clone(), false);
    let PassAction::BackupBoth { local: third, file, bytes, of_local, of_remote } = pass.action()
    else {
        panic!("both versions of slot 3 are backed up");
    };
    assert_eq!((third.slot, file.save.slot, bytes), (3, 3, save));
    assert_eq!(
        (of_local, of_remote),
        (BackupSource::LocalFirstSync, BackupSource::SteamFirstSync)
    );
    let pass = pass.backed_up();
    assert!(matches!(pass.action(), PassAction::Settle));
    let pass = pass.settle(20);
    assert!(matches!(pass.action(), PassAction::Finish));
    let run = pass.finish(99);
    assert_eq!(run.uploads_waiting, 1);
    assert_eq!(run.state.cloud_change_number, Some(99));
    let kinds: Vec<&str> = run.pending.iter().map(|choice| choice.kind.as_str()).collect();
    assert_eq!(kinds, vec!["first_sync_remote_missing", "first_sync"]);
    assert_eq!(run.pending[1].remote.sha256.as_deref(), Some(sha.as_str()));
    assert_eq!(prior_entry(&run.state, 1).unwrap().base_sha256, sha);
}

#[test]
fn agreement_becomes_the_base() {
    let mut run = SyncRun::new(synced("old"));
    let plan = SlotPlan {
        forget_pull: false,
        compared: Some(SyncDecision::Converged),
        step: SlotStep::AdvanceBase { upload_waits: true },
    };
    run.settle(plan, &local(1, "new"), &remote(1), &identity("new"), 40);
    assert_eq!(run.uploads_waiting, 1);
    assert_eq!(prior_entry(&run.state, 1).unwrap().base_sha256, "new");
    run.missing_remote(&local(2, "x"));
    run.finish(5);
    assert_eq!(run.pending.len(), 1);
    assert_eq!(run.state.cloud_change_number, Some(5));
}

#[test]
fn other_slots_are_left_alone() {
    let mut run = SyncRun::new(synced("old"));
    queue_remote_pull(&mut run.state, 1, &remote(1), 9);
    let plan = SlotPlan {
        forget_pull: true,
        compared: Some(SyncDecision::Converged),
        step: SlotStep::AdvanceBase { upload_waits: false },
    };
    run.settle(plan, &local(2, "new"), &remote(2), &identity("new"), 40);
    assert_eq!(prior_entry(&run.state, 1).unwrap().base_sha256, "old");
    assert_eq!(prior_entry(&run.state, 2).unwrap().base_sha256, "new");
    assert!(run.state.pending_remote_pulls.contains_key(&1));
}

#[test]
fn uploads_are_recorded_by_their_hash() {
    let digest = sha1_digest(b"abc");
    let mut listed = remote(1);
    listed.save.identity.steam_sha1 = Some("a9993e364706816aba3e25717850c26c9cd0d89d".to_owned());
    let name = listed.request_name.clone();
    let verified = upload_verified(&vec![remote(2), listed], &name, &digest).unwrap();
    let mut state = state();
    finish_push(&mut state, &local(1, "x"), &name, &verified, &identity("a"), &identity("a"), 3);
    assert_eq!(
        prior_entry(&state, 1).unwrap().base_steam_sha1.as_deref(),
        Some("a9993e364706816aba3e25717850c26c9cd0d89d")
    );
}

#[test]
fn uploads_take_the_layout_of_their_name() {
    let save = repentance_save(3);
    let raw = identity_for_bytes(&save);
    let upload = prepare_upload(&save, &raw, "rep_persistentgamedata1.dat").unwrap();
    assert_eq!(upload.bytes, save);
    assert!(!upload.decoded);
    let upload =
        prepare_upload(&literal_only_lz4(&save), &identity("raw"), "x/REP+persistentgamedata1.dat")
            .unwrap();
    assert!(upload.decoded);
    assert_eq!(upload.bytes, convert_rep_to_rep_plus(&save).unwrap());
    assert_eq!(upload.identity.sha256, raw.sha256);
    assert_eq!(upload.identity.modified_unix_ms, Some(1));
    // What was uploaded compares as the save when it is downloaded again.
    let copy = evaluate_remote(&upload.bytes, &remote(1), 1).unwrap();
    assert_eq!(copy.normalized, save);
    assert!(matches!(prepare_upload(b"", &raw, "x"), Err(SaveError::Lz4(_))));
}

#[test]
fn both_sides_must_stay_during_an_upload() {
    let a = identity("a");
    let b = identity("b");
    assert_eq!(check_local_unchanged(&a, &a), Ok(()));
    assert_eq!(check_local_unchanged(&a, &b), Err(EngineError::LocalChanged));
    assert_eq!(check_contents_unchanged(&a, &a), Ok(()));
    assert_eq!(
        check_contents_unchanged(&a, &b),
        Err(EngineError::LocalChangedSemantically)
    );
    assert_eq!(check_not_created(&vec![remote(1)], 2, "new"), Ok(()));
    assert_eq!(check_not_created(&vec![remote(1)], 1, "new"), Err(EngineError::RemoteCreated));
    assert_eq!(
        check_not_created(&vec![remote(1)], 2, "rep_persistentgamedata1.dat"),
        Err(EngineError::RemoteCreated)
    );
    assert!(matches!(
        check_remote_listed(&vec![remote(1)], &remote(1)),
        Ok(RemoteCheck::Unchanged)
    ));
    assert!(matches!(
        check_remote_listed(&vec![], &remote(1)),
        Err(EngineError::RemoteDisappeared)
    ));
    let mut changed = remote(1);
    changed.save.identity.steam_sha1 = Some("other".to_owned());
    assert!(matches!(
        check_remote_listed(&vec![changed.clone()], &remote(1)),
        Err(EngineError::RemoteChanged)
    ));
    changed.save.identity.steam_sha1 = None;
    assert!(matches!(
        check_remote_listed(&vec![changed], &remote(1)),
        Ok(RemoteCheck::Compare(file)) if file.save.slot == 1
    ));
    assert_eq!(check_remote_bytes(b"abc", b"abc"), Ok(()));
    assert_eq!(check_remote_bytes(b"abc", b"abd"), Err(EngineError::RemoteChanged));
}

#[test]
fn transfers_become_the_base() {
    let mut state = state();
    finish_push(&mut state, &local(1, "x"), "name", &remote(1), &identity("a"), &identity("a"), 3);
    let entry = prior_entry(&state, 1).unwrap();
    assert_eq!(entry.remote_name, "name");
    assert_eq!(entry.base_sha256, "a");
    assert_eq!(entry.base_steam_sha1.as_deref(), Some("cloud"));
    assert_eq!(entry.last_remote.sha256, "a");
    assert_eq!(entry.last_remote.modified_unix_ms, Some(7000));
    finish_pull(&mut state, &local(1, "x"), &remote(1), &identity("b"), &identity("b"), 4);
    assert_eq!(state.files.len(), 1);
    assert_eq!(prior_entry(&state, 1).unwrap().base_sha256, "b");
}

#[test]
fn replacements_need_permission() {
    assert_eq!(check_replacement_allowed(true), Ok(()));
    assert_eq!(
        check_replacement_allowed(false).unwrap_err().message(),
        "local replacement is only allowed at the prelaunch barrier or after an explicit warning"
    );
}

#[test]
fn users_can_force_a_side() {
    let choices = vec![missing_remote_choice(&local(2, "a"))];
    let none = BTreeSet::new();
    assert_eq!(check_force(2, &none, true, &choices), Ok(()));
    assert_eq!(check_force(1, &none, false, &choices), Ok(()));
    assert_eq!(check_force(1, &none, true, &choices), Err(EngineError::NotPending));
    assert_eq!(
        check_force(2, &BTreeSet::from([2]), true, &choices).unwrap_err().message(),
        "save slot 2 is excluded from sync"
    );
    let file = remote(1);
    let forced = |remote, use_local| force_step(remote, use_local, "new".to_owned());
    assert!(matches!(forced(Some(&file), true), Ok(ForceStep::PushOver(of)) if of.save.slot == 1));
    assert!(matches!(forced(Some(&file), false), Ok(ForceStep::QueuePull(of)) if of.save.slot == 1));
    assert!(matches!(forced(None, true), Ok(ForceStep::PushNew(name)) if name == "new"));
    assert!(matches!(forced(None, false), Err(EngineError::NoRemoteToPull)));
    assert_eq!(local_for_slot(&vec![local(1, "a")], 1).unwrap().slot, 1);
    assert_eq!(
        local_for_slot(&vec![local(1, "a")], 2).unwrap_err(),
        EngineError::LocalSlotNotFound
    );
    let mut renamed = local(2, "a");
    renamed.path.components[1].text = "persistentgamedata2.dat".to_owned();
    assert_eq!(new_remote_name(&choices, &synced("a"), &renamed), "rep_persistentgamedata2.dat");
    renamed.slot = 1;
    assert_eq!(new_remote_name(&vec![], &synced("a"), &renamed), "rep_persistentgamedata1.dat");
    // Without a name that was shown or used before, the file keeps its own.
    renamed.slot = 3;
    assert_eq!(new_remote_name(&vec![], &synced("a"), &renamed), "persistentgamedata2.dat");
    assert_eq!(
        new_remote_name(&vec![], &synced("a"), &local(3, "c")),
        "rep_persistentgamedata3.dat"
    );
}

#[test]
fn what_is_no_save_ends_a_pass_behind_its_backup() {
    let pass = SyncPass::new("manual", vec![local(1, "a")], vec![remote(1)], synced("a"));
    let pass = pass.downloaded(b"broken".to_vec(), true);
    let PassAction::BackupRemote { file, bytes, source, .. } = pass.action() else {
        panic!("the bytes are kept");
    };
    assert_eq!((file.save.slot, bytes), (1, b"broken".to_vec()));
    assert_eq!(source, BackupSource::SteamInvalid);
    let pass = pass.backed_up();
    assert!(matches!(
        pass.action(),
        PassAction::Failed(EngineError::InvalidRemote { slot: 1, .. })
    ));
}

#[test]
fn hashes_are_logged_in_short() {
    assert_eq!(short_hash("0123456789abcdef0123"), "0123456789abcdef");
    assert_eq!(short_hash("0123456789abcdef"), "0123456789abcdef");
    assert_eq!(short_hash("none"), "none");
    assert_eq!(short_hash(""), "");
    // Sixteen bytes end behind a character here, and inside one there.
    assert_eq!(short_hash("0123456789abcd\u{e9}xyz"), "0123456789abcd\u{e9}");
    assert_eq!(short_hash("0123456789abcde\u{e9}xyz"), "0123456789abcde\u{e9}xyz");
    assert_eq!(short_hash("0123456789ab\u{1f600}x"), "0123456789ab\u{1f600}");
    assert_eq!(short_hash("0123456789abc\u{20ac}x"), "0123456789abc\u{20ac}");
}

#[test]
fn restored_saves_replace_their_slot() {
    let merged = merge_restored(
        vec![local(3, "c"), local(2, "b"), local(2, "d"), local(1, "a")],
        local(2, "restored"),
    );
    let list: Vec<(u8, &str)> = merged
        .iter()
        .map(|save| (save.slot, save.identity.sha256.as_str()))
        .collect();
    assert_eq!(list, vec![(1, "a"), (2, "restored"), (3, "c")]);
}

#[test]
fn messages_disclose_nothing() {
    assert_eq!(safe_error("short"), "short");
    let generic = "Steam network operation failed; local play is still available";
    assert_eq!(safe_error("see http://x"), generic);
    assert_eq!(safe_error("see https://x"), generic);
    assert_eq!(safe_error("aaa.bbb.ccc"), generic);
    assert_eq!(safe_error("one dot."), "one dot.");
    assert_eq!(safe_error(&"x".repeat(500)), "x".repeat(400));
}

#[test]
fn lost_connections_are_tried_once_more() {
    assert!(is_transient_cm_close("error", "Steam CM closed the connection"));
    assert!(is_transient_cm_close("offline", "an UNEXPECTED websocket close"));
    assert!(!is_transient_cm_close("idle", "Steam CM closed the connection"));
    assert!(!is_transient_cm_close("error", "other"));
    assert!(is_running("syncing"));
    assert!(is_running("connecting"));
    assert!(!is_running("idle"));
}

#[test]
fn status_starts_idle() {
    let status = StatusSnapshot::default();
    assert_eq!(status.phase, "idle");
    assert_eq!(status.detail, "Not connected");
    assert!(status.offline_play_allowed);
    let mut status = status.clone();
    status.account_found();
    assert_eq!(status.detail, "Steam account connected");
    assert!(status.account_connected);
}

#[test]
fn status_follows_a_sign_in() {
    let mut status = StatusSnapshot::default();
    status.begin_operation("connecting");
    assert_eq!((status.phase.as_str(), status.detail.as_str()), ("connecting", "connecting"));
    status.begin_sign_in(false);
    assert_eq!(status.detail, "Connecting to Steam…");
    status.show_qr("code");
    assert_eq!(status.phase, "awaiting_steam_guard");
    assert_eq!(status.qr_url.as_deref(), Some("code"));
    assert_eq!(status.guard_kind.as_deref(), Some("qr"));
    status.begin_sign_in(true);
    assert_eq!(status.detail, "Signing in to Steam…");
    assert_eq!(status.qr_url, None);
    status.show_prompt(CredentialPrompt::EmailCode);
    assert_eq!(status.guard_kind.as_deref(), Some("email_code"));
    status.show_prompt(CredentialPrompt::DeviceCode);
    assert_eq!(status.detail, "Enter the Steam Guard code");
    status.show_prompt(CredentialPrompt::DeviceConfirmation);
    assert_eq!(status.guard_kind.as_deref(), Some("device_confirmation"));
    status.cancelling_sign_in();
    assert_eq!(status.phase, "cancelling");
    status.sign_in_cancelled();
    assert_eq!(status.detail, "Steam sign-in cancelled");
    status.connected(42);
    assert_eq!(status.steam_id, Some(42));
    assert!(status.authenticated && status.account_connected);
    status.presence(true);
    assert!(status.steam_playing);
    status.disconnected();
    assert_eq!(status.detail, "Disconnected from Steam");
    assert!(!status.authenticated);
}

#[test]
fn status_follows_operations() {
    let mut status = StatusSnapshot::default();
    status.operation_failed("broken");
    assert_eq!((status.phase.as_str(), status.detail.as_str()), ("error", "broken"));
    assert!(status.offline_play_allowed);
    status.operation_succeeded();
    assert_eq!(status.phase, "idle");
    for phase in ["conflict", "first_sync", "offline", "restart_required", "upload_required"] {
        status.begin_operation(phase);
        status.operation_succeeded();
        assert_eq!(status.phase, phase);
    }
    status.offline("no network");
    assert_eq!((status.phase.as_str(), status.detail.as_str()), ("offline", "no network"));
    status.backup_queued();
    assert_eq!(status.phase, "restart_required");
    status.exclude(&BTreeSet::from([3, 1]));
    assert_eq!(status.excluded_slots, vec![1, 3]);
}

#[test]
fn status_follows_achievements() {
    let mut status = StatusSnapshot::default();
    status.comparing_achievements();
    assert_eq!(status.phase, "syncing");
    status.report_achievement_result(0);
    assert_eq!(status.detail, "Steam Cloud and save-derived achievements are synchronized");
    status.report_achievement_result(1);
    assert_eq!(
        status.detail,
        "Steam Cloud synchronized; 1 missing save achievement added to Steam"
    );
    status.report_achievement_result(12);
    assert_eq!(
        status.detail,
        "Steam Cloud synchronized; 12 missing save achievements added to Steam"
    );
    status.achievements_failed("why");
    assert_eq!(status.phase, "idle");
    assert_eq!(status.detail, "Steam Cloud synchronized; achievement sync failed: why");
    status.begin_operation("conflict");
    status.report_achievement_result(1);
    assert_eq!(status.detail, "conflict");
}

fn finished(kinds: &[&str], uploads: usize) -> StatusSnapshot {
    let choices: Vec<PendingChoice> = kinds
        .iter()
        .map(|kind| {
            let mut choice = missing_remote_choice(&local(1, "a"));
            choice.kind = kind.to_string();
            choice
        })
        .collect();
    let mut status = StatusSnapshot::default();
    status.sync_finished(choices, 4, 50, uploads);
    status
}

#[test]
fn status_shows_what_a_synchronization_leaves() {
    let mut status = StatusSnapshot::default();
    status.sync_started();
    assert_eq!(status.detail, "Discovering Isaac saves…");
    status.saves_listed(
        &BTreeSet::from([2]),
        local_summaries(&vec![local(1, "a")]),
        remote_summaries(&vec![remote(1)]),
    );
    assert_eq!(status.local_saves.len(), 1);
    assert_eq!(status.remote_saves.len(), 1);
    assert_eq!(status.excluded_slots, vec![2]);
    let status = finished(&[], 0);
    assert_eq!((status.phase.as_str(), status.backup_count), ("idle", 4));
    assert_eq!(status.last_sync_unix_ms, Some(50));
    assert_eq!(finished(&["first_sync", "conflict"], 1).phase, "conflict");
    assert_eq!(finished(&["remote_update_restart_required"], 1).phase, "restart_required");
    let status = finished(&["first_sync"], 1);
    assert_eq!(status.phase, "upload_required");
    assert_eq!(
        status.detail,
        "iPhone progress is waiting; tap Sync Now to upload a Windows-compatible save"
    );
    assert_eq!(
        finished(&[], 2).detail,
        "2 iPhone saves are waiting; tap Sync Now to upload them"
    );
    assert_eq!(finished(&["first_sync_remote_missing"], 0).phase, "first_sync");
}

#[test]
fn status_forgets_resolved_slots() {
    let mut status = finished(&["conflict"], 0);
    status.resolved(2, true);
    assert_eq!(status.pending_choices.len(), 1);
    assert_eq!(status.detail, "Slot 2 resolved and verified");
    assert_eq!(status.phase, "conflict");
    status.resolved(1, false);
    assert!(status.pending_choices.is_empty());
    assert_eq!(status.phase, "restart_required");
    assert_eq!(
        status.detail,
        "Slot 1 Steam save is verified and queued; relaunch Isaac to apply it"
    );
}
