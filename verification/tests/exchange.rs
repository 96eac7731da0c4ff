use isaac_cloud_sync::cloud::{AppFileInfo, CloudError, CloudFile};
use isaac_cloud_sync::digest::{identity_for_bytes, sha1_digest};
use isaac_cloud_sync::engine::EngineError;
use isaac_cloud_sync::force::{Force, ForceAction, ForceEvent};
use isaac_cloud_sync::isaac_crc::isaac_crc32;
use isaac_cloud_sync::isaac_format::{convert_rep_to_rep_plus, SaveError};
use isaac_cloud_sync::lz4::Lz4Error;
use isaac_cloud_sync::model::{
    BackupSource, EntryName, FileIdentity, LocalSave, RemoteSave, SandboxPath, SyncState,
};
use isaac_cloud_sync::pull::{Pull, PullAction, PullEvent};
use isaac_cloud_sync::push::{Push, PushAction, PushEvent, PushFailure, PushTarget};
use isaac_cloud_sync::slot_sync::{PassAction, SyncPass};
use isaac_cloud_sync::sync_state::{make_file_state, prior_entry, upsert_state};
use isaac_cloud_sync::upload::{UploadAction, UploadEvent, UploadFailure};
use std::collections::BTreeMap;

fn identity(sha256: &str) -> FileIdentity {
    FileIdentity {
        sha256: sha256.to_owned(),
        size: 3,
        modified_unix_ms: Some(1),
        steam_sha1: Some("listed".to_owned()),
    }
}

fn local(slot: u8, sha256: &str) -> LocalSave {
    let file = format!("rep_persistentgamedata{slot}.dat");
    LocalSave {
        slot,
        path: SandboxPath {
            components: vec![
                EntryName { bytes: b"Documents".to_vec(), text: "Documents".to_owned(), utf8: true },
                EntryName { bytes: file.clone().into_bytes(), text: file.clone(), utf8: true },
            ],
        },
        relative_path: format!("Documents/{file}"),
        identity: identity(sha256),
    }
}

fn remote(slot: u8) -> CloudFile {
    let name = format!("rep_persistentgamedata{slot}.dat");
    CloudFile {
        save: RemoteSave {
            slot,
            filename: name.clone(),
            path_prefix: String::new(),
            identity: FileIdentity {
                sha256: String::new(),
                size: 9,
                modified_unix_ms: Some(7000),
                steam_sha1: Some("cloud".to_owned()),
            },
        },
        raw: AppFileInfo {
            file_name: Some(name.clone()),
            sha_file: None,
            time_stamp: Some(7),
            raw_file_size: Some(9),
            persist_state: None,
            path_prefix_index: None,
        },
        request_name: name,
    }
}

fn state() -> SyncState {
    SyncState {
        steam_id: Some(1),
        account_name: Some("name".to_owned()),
        files: vec![],
        cloud_change_number: Some(4),
        pending_remote_pulls: BTreeMap::new(),
        pending_local_restore: None,
    }
}

fn repentance_save(marker: u8) -> Vec<u8> {
    let mut bytes = b"ISAACNGSAVE09R  ".to_vec();
    bytes.extend_from_slice(&[marker, 0, 0, 0]);
    let push = |bytes: &mut Vec<u8>, kind: u32, size: u32, count: u32| {
        bytes.extend_from_slice(&kind.to_le_bytes());
        bytes.extend_from_slice(&size.to_le_bytes());
        bytes.extend_from_slice(&count.to_le_bytes());
    };
    push(&mut bytes, 1, 638, 638);
    bytes.extend(vec![1; 638]);
    push(&mut bytes, 2, 1984, 496);
    bytes.extend(vec![marker; 1984]);
    for section in 3..=10 {
        push(&mut bytes, section, 0, 0);
    }
    push(&mut bytes, 11, 0, 4);
    for subtype in [4_u32, 2, 3, 1] {
        bytes.extend_from_slice(&subtype.to_le_bytes());
        bytes.extend_from_slice(&0_u32.to_le_bytes());
    }
    bytes.extend_from_slice(&[0; 4]);
    let checksum = isaac_crc32(&bytes[16..], 0xfedc_ba76);
    bytes.extend_from_slice(&checksum.to_le_bytes());
    bytes
}

fn literal_only_lz4(bytes: &[u8]) -> Vec<u8> {
    let mut encoded = vec![0xf0];
    let mut remaining = bytes.len() - 15;
    while remaining >= 255 {
        encoded.push(255);
        remaining -= 255;
    }
    encoded.push(remaining as u8);
    encoded.extend_from_slice(bytes);
    encoded
}

/// A state in which slot 1 was last synchronized as `base`.
fn synced(base: &str) -> SyncState {
    let mut state = state();
    let entry = make_file_state(&local(1, base), &remote(1), &identity(base), 5);
    upsert_state(&mut state, entry);
    state
}

fn hex(bytes: &[u8]) -> String {
    bytes.iter().map(|byte| format!("{byte:02x}")).collect()
}

/// Steam's file with these bytes.
fn remote_with(name: &str, bytes: &[u8]) -> CloudFile {
    let mut file = remote(1);
    file.request_name = name.to_owned();
    file.save.identity.steam_sha1 = Some(hex(&sha1_digest(bytes)));
    file
}

fn over() -> PushTarget {
    PushTarget::Over { file: remote(1), bytes: b"before".to_vec() }
}

fn staged(save: &[u8]) -> PushEvent {
    PushEvent::Staged { raw: identity_for_bytes(save), bytes: save.to_vec() }
}

/// What an upload of one part reports, up to the list of files.
fn uploaded() -> Vec<PushEvent> {
    vec![
        PushEvent::Uploading(UploadEvent::BatchBegun(Some(1))),
        PushEvent::Uploading(UploadEvent::FileBegun { encrypt_file: None, blocks: vec![] }),
        PushEvent::Uploading(UploadEvent::Committed(Some(true))),
        PushEvent::Uploading(UploadEvent::Completed),
    ]
}

fn behind(target: PushTarget, events: Vec<PushEvent>) -> Push {
    let mut push = Push::new(local(1, "old"), target);
    for event in events {
        push = push.step(event);
    }
    push
}

/// A save that was carried to Steam's first slot.
fn carried(local: LocalSave, target: PushTarget, listed: Vec<CloudFile>, save: &[u8]) -> Push {
    let mut events = vec![staged(save), PushEvent::Listed(listed), PushEvent::BackedUp];
    events.extend(uploaded());
    events.push(PushEvent::Uploading(UploadEvent::Listed(vec![remote_with(
        "rep_persistentgamedata1.dat",
        save,
    )])));
    events.push(PushEvent::RawRead(identity_for_bytes(save)));
    events.push(PushEvent::SaveRead(identity_for_bytes(save)));
    let mut push = Push::new(local, target);
    for event in events {
        push = push.step(event);
    }
    assert!(matches!(push.action(), PushAction::Settled));
    push
}

#[test]
fn saves_are_carried_to_steam_step_by_step() {
    let save = repentance_save(3);
    let push = behind(over(), vec![]);
    assert!(matches!(push.action(), PushAction::Stage));
    let push = push.step(staged(&save));
    assert!(matches!(push.action(), PushAction::List));
    assert!(!push.is_decoded());
    let push = push.step(PushEvent::Listed(vec![remote(2), remote(1)]));
    assert!(matches!(
        push.action(),
        PushAction::BackupRemote(BackupSource::SteamBeforePush)
    ));
    let mut push = push.step(PushEvent::BackedUp);
    assert!(matches!(push.action(), PushAction::Upload(UploadAction::BeginBatch(_))));
    for event in uploaded() {
        push = push.step(event);
    }
    assert!(matches!(push.action(), PushAction::Upload(UploadAction::List)));
    let listed = vec![remote_with("rep_persistentgamedata1.dat", &save)];
    let push = push.step(PushEvent::Uploading(UploadEvent::Listed(listed)));
    assert!(matches!(push.action(), PushAction::ReadRaw));
    let push = push.step(PushEvent::RawRead(identity_for_bytes(&save)));
    assert!(matches!(push.action(), PushAction::ReadSave));
    let push = push.step(PushEvent::SaveRead(identity_for_bytes(&save)));
    assert!(matches!(push.action(), PushAction::Settled));
    let mut state = synced("old");
    push.settle(&mut state, 30);
    let entry = prior_entry(&state, 1).unwrap();
    assert_eq!(entry.base_sha256, identity_for_bytes(&save).sha256);
    assert_eq!(entry.base_steam_sha1, Some(hex(&sha1_digest(&save))));
    assert_eq!(entry.last_successful_sync_unix_ms, 30);
}

#[test]
fn new_files_get_the_layout_of_their_name() {
    let save = repentance_save(4);
    let name = "rep+persistentgamedata1.dat";
    let plus = convert_rep_to_rep_plus(&save).unwrap();
    let mut events = vec![
        PushEvent::Staged { raw: identity("raw"), bytes: literal_only_lz4(&save) },
        PushEvent::Listed(vec![remote(2)]),
        PushEvent::BackedUp,
    ];
    events.extend(uploaded());
    events.push(PushEvent::Uploading(UploadEvent::Listed(vec![remote_with(name, &plus)])));
    events.push(PushEvent::RawRead(identity("raw")));
    events.push(PushEvent::SaveRead(identity_for_bytes(&save)));
    let push = behind(PushTarget::New { remote_name: name.to_owned() }, events);
    let mut state = state();
    assert!(matches!(push.action(), PushAction::Settled));
    push.settle(&mut state, 30);
    let entry = prior_entry(&state, 1).unwrap();
    assert_eq!(entry.remote_name, name);
    assert_eq!(entry.base_sha256, identity_for_bytes(&save).sha256);
    assert_eq!(entry.base_steam_sha1, Some(hex(&sha1_digest(&plus))));
    let push = Push::new(local(1, "old"), PushTarget::New { remote_name: name.to_owned() })
        .step(PushEvent::Staged { raw: identity("raw"), bytes: literal_only_lz4(&save) });
    assert!(push.is_decoded());
    let push = push.step(PushEvent::Listed(vec![]));
    assert!(matches!(
        push.action(),
        PushAction::BackupLocal(BackupSource::LocalFirstSync)
    ));
}

#[test]
fn changes_on_either_side_stop_the_way_to_steam() {
    let save = repentance_save(3);
    let failed = |push: Push, failure: PushFailure| {
        matches!(push.action(), PushAction::Failed(found) if found == failure)
    };
    assert!(failed(
        behind(over(), vec![staged(b"")]),
        PushFailure::Save(SaveError::Lz4(Lz4Error::InputSize))
    ));
    assert!(failed(
        behind(over(), vec![staged(&save), PushEvent::Listed(vec![])]),
        PushFailure::Engine(EngineError::RemoteDisappeared)
    ));
    assert!(failed(
        behind(
            over(),
            vec![
                staged(&save),
                PushEvent::Listed(vec![remote_with("rep_persistentgamedata1.dat", b"x")]),
            ]
        ),
        PushFailure::Engine(EngineError::RemoteChanged)
    ));
    let new = PushTarget::New { remote_name: "x".to_owned() };
    assert!(failed(
        behind(new, vec![staged(&save), PushEvent::Listed(vec![remote(1)])]),
        PushFailure::Engine(EngineError::RemoteCreated)
    ));
    let mut unhashed = remote(1);
    unhashed.save.identity.steam_sha1 = None;
    let compare = || vec![staged(&save), PushEvent::Listed(vec![unhashed.clone()])];
    assert!(matches!(behind(over(), compare()).action(), PushAction::Download(_)));
    let mut events = compare();
    events.push(PushEvent::Downloaded(b"other".to_vec()));
    assert!(failed(
        behind(over(), events),
        PushFailure::Engine(EngineError::RemoteChanged)
    ));
    let mut events = compare();
    events.push(PushEvent::Downloaded(b"before".to_vec()));
    assert!(matches!(
        behind(over(), events).action(),
        PushAction::BackupRemote(BackupSource::SteamBeforePush)
    ));
    let ready = || {
        vec![
            staged(&save),
            PushEvent::Listed(vec![remote(1)]),
            PushEvent::BackedUp,
        ]
    };
    let mut events = ready();
    events.push(PushEvent::Uploading(UploadEvent::BatchBegun(None)));
    assert!(failed(
        behind(over(), events),
        PushFailure::Upload(UploadFailure::Cloud(CloudError::BatchIdMissing))
    ));
    let listed = || {
        let mut events = ready();
        events.extend(uploaded());
        events.push(PushEvent::Uploading(UploadEvent::Listed(vec![remote_with(
            "rep_persistentgamedata1.dat",
            &save,
        )])));
        events
    };
    let mut events = listed();
    events.push(PushEvent::RawRead(identity("other")));
    assert!(failed(
        behind(over(), events),
        PushFailure::Engine(EngineError::LocalChanged)
    ));
    let mut events = listed();
    events.push(PushEvent::RawRead(identity_for_bytes(&save)));
    events.push(PushEvent::SaveRead(identity("other")));
    assert!(failed(
        behind(over(), events),
        PushFailure::Engine(EngineError::LocalChangedSemantically)
    ));
}

#[test]
fn replacements_are_backed_up_and_verified() {
    let save = repentance_save(5);
    let pull = Pull::new(local(1, "old"), remote(1), &save, true).unwrap();
    assert!(matches!(
        pull.action(),
        PullAction::Backup(BackupSource::LocalBeforePull)
    ));
    let pull = pull.step(PullEvent::BackedUp);
    assert!(matches!(pull.action(), PullAction::Write(bytes) if bytes == save));
    let pull = pull.step(PullEvent::Written(true));
    assert!(matches!(pull.action(), PullAction::Read));
    let pull = pull.step(PullEvent::Read(Some(identity_for_bytes(&save))));
    assert!(matches!(pull.action(), PullAction::Settled));
    let mut state = synced("old");
    pull.settle(&mut state, 31);
    let entry = prior_entry(&state, 1).unwrap();
    assert_eq!(entry.base_sha256, identity_for_bytes(&save).sha256);
    assert_eq!(entry.last_remote.steam_sha1.as_deref(), Some("cloud"));
    assert_eq!(
        Pull::new(local(1, "old"), remote(1), &save, false).unwrap_err(),
        EngineError::ReplacementNotAllowed
    );
}

#[test]
fn failed_replacements_are_undone() {
    let cases = vec![
        (vec![PullEvent::Written(false)], EngineError::WriteFailed),
        (
            vec![PullEvent::Written(true), PullEvent::Read(None)],
            EngineError::Unverifiable,
        ),
        (
            vec![PullEvent::Written(true), PullEvent::Read(Some(identity("other")))],
            EngineError::VerificationFailed,
        ),
    ];
    for (events, expected) in cases {
        let mut pull = Pull::new(local(1, "old"), remote(1), b"new", true)
            .unwrap()
            .step(PullEvent::BackedUp);
        for event in events {
            pull = pull.step(event);
        }
        assert!(matches!(pull.action(), PullAction::Rollback(reason) if reason == expected));
        let pull = pull.step(PullEvent::RolledBack);
        assert!(matches!(pull.action(), PullAction::Failed(reason) if reason == expected));
    }
}

#[test]
fn transfers_of_a_pass_advance_the_base() {
    let save = repentance_save(3);
    let before = repentance_save(2);
    let base = identity_for_bytes(&before).sha256;
    let contents = identity_for_bytes(&save);
    let pass = SyncPass::new("manual", vec![local(1, "new")], vec![remote(1)], synced(&base));
    let pass = pass.downloaded(before.clone(), false);
    let PassAction::Push { local: of, target } = pass.action() else {
        panic!("the device's save is carried to Steam");
    };
    assert!(matches!(&target, PushTarget::Over { file, bytes }
        if file.request_name == "rep_persistentgamedata1.dat" && *bytes == before));
    let push = carried(of, target, vec![remote(1)], &save);
    let pass = pass.pushed(&push, 30);
    assert!(matches!(pass.action(), PassAction::Settle));
    let state = pass.settle(30).finish(1).state;
    assert_eq!(prior_entry(&state, 1).unwrap().base_sha256, contents.sha256);
    let pass = SyncPass::new("prelaunch", vec![local(1, "old")], vec![remote(1)], synced("old"));
    let pass = pass.downloaded(save.clone(), true);
    let PassAction::Pull { local: of, file, bytes } = pass.action() else {
        panic!("Steam's save is pulled");
    };
    assert_eq!(bytes, save);
    let pull = Pull::new(of, file, &bytes, true)
        .unwrap()
        .step(PullEvent::BackedUp)
        .step(PullEvent::Written(true))
        .step(PullEvent::Read(Some(contents.clone())));
    let state = pass.pulled(&pull, 31).settle(31).finish(1).state;
    let entry = prior_entry(&state, 1).unwrap();
    assert_eq!(entry.base_sha256, contents.sha256);
    assert_eq!(entry.last_remote.steam_sha1.as_deref(), Some("cloud"));
}

/// A decision up to what it comes to, with the backups that were made on the way.
fn decided(use_local: bool, listed: Vec<CloudFile>, state: &SyncState) -> (Force, Vec<BackupSource>) {
    let mut force = Force::new(local(1, "old"), &listed, use_local, &vec![], state).unwrap();
    let mut backups = vec![];
    loop {
        let event = match force.action() {
            ForceAction::Download(file) => {
                assert_eq!(file.save.slot, 1);
                ForceEvent::Downloaded(b"steam".to_vec())
            }
            ForceAction::BackupLocal(source) => {
                backups.push(source);
                ForceEvent::BackedUp
            }
            ForceAction::BackupRemote { source, file, bytes } => {
                assert_eq!((file.save.slot, bytes), (1, b"steam".to_vec()));
                backups.push(source);
                ForceEvent::BackedUp
            }
            ForceAction::Push(_) => return (force, backups),
            ForceAction::Queue => return (force, backups),
        };
        force = force.step(event);
    }
}

#[test]
fn decisions_back_both_versions_up_first() {
    let both = vec![BackupSource::LocalBeforeForce, BackupSource::SteamBeforeForce];
    let save = repentance_save(3);
    let mut after = synced("old");
    let (force, backups) = decided(true, vec![remote(2), remote(1)], &after);
    assert_eq!(backups, both);
    let ForceAction::Push(target) = force.action() else {
        panic!("the device's save is carried to Steam");
    };
    assert!(matches!(&target, PushTarget::Over { file, bytes }
        if file.save.slot == 1 && bytes == b"steam"));
    let push = carried(local(1, "old"), target, vec![remote(1)], &save);
    force.pushed(&push, &mut after, 40);
    assert_eq!(prior_entry(&after, 1).unwrap().base_sha256, identity_for_bytes(&save).sha256);
    let mut after = synced("old");
    let (force, backups) = decided(false, vec![remote(1)], &after);
    assert_eq!(backups, both);
    assert!(matches!(force.action(), ForceAction::Queue));
    force.queue(&mut after, 41);
    let pull = &after.pending_remote_pulls[&1];
    assert_eq!(pull.remote_name, "rep_persistentgamedata1.dat");
    assert_eq!(pull.expected_steam_sha1.as_deref(), Some("cloud"));
    assert_eq!(pull.requested_unix_ms, 41);
    assert_eq!(prior_entry(&after, 1).unwrap().base_sha256, "old");
}

#[test]
fn decisions_about_new_files_give_nothing_up() {
    let save = repentance_save(3);
    let mut after = state();
    let (force, backups) = decided(true, vec![remote(2)], &after);
    assert!(backups.is_empty());
    let ForceAction::Push(target) = force.action() else {
        panic!("the device's save is carried to Steam");
    };
    assert!(matches!(&target, PushTarget::New { remote_name }
        if remote_name == "rep_persistentgamedata1.dat"));
    let push = carried(local(1, "old"), target, vec![remote(2)], &save);
    force.pushed(&push, &mut after, 40);
    assert_eq!(prior_entry(&after, 1).unwrap().remote_name, "rep_persistentgamedata1.dat");
    assert_eq!(
        Force::new(local(1, "old"), &vec![remote(2)], false, &vec![], &after).unwrap_err(),
        EngineError::NoRemoteToPull
    );
    // What does not answer the question changes nothing.
    let force = Force::new(local(1, "old"), &vec![remote(1)], true, &vec![], &after).unwrap();
    let force = force.step(ForceEvent::BackedUp).step(ForceEvent::BackedUp);
    assert!(matches!(force.action(), ForceAction::Download(_)));
}
