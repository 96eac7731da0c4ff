use isaac_cloud_sync::clock::{system_time_ms, unix_ms, unix_ms_after, Elapsed};
use isaac_cloud_sync::digest::{identity_for_bytes, identity_for_file};
use isaac_cloud_sync::discovery::{sandbox_files, Entry, Sandbox};
use isaac_cloud_sync::isaac_crc::isaac_crc32;
use isaac_cloud_sync::local::{
    discover_saves, discover_saves_for_slots, discover_saves_immediate, discovery_candidates,
    locate_save_path_for_restore, restore_path_rank, DiscoveryError, LocateError,
};
use isaac_cloud_sync::model::{EntryName, FileIdentity, LocalSave, SandboxPath};
use isaac_cloud_sync::slots::{excluded_in, set_slot_excluded};
use isaac_cloud_sync::stable_read::{
    admits_size, after_attempt, canonical_identity_for_path_once, check_settled, check_staged,
    same_observation, wait_for_stable_snapshot, FileStat, ReadError, ReadStep, SnapshotError,
};
use std::collections::BTreeSet;

fn name(text: &str) -> EntryName {
    EntryName {
        bytes: text.as_bytes().to_vec(),
        text: text.to_owned(),
        utf8: true,
    }
}

fn file(text: &str) -> Entry {
    Entry::File { name: name(text) }
}

fn directory(text: &str, entries: Vec<Entry>) -> Entry {
    Entry::Directory { name: name(text), entries }
}

fn sandbox(documents: Vec<Entry>, library: Vec<Entry>) -> Sandbox {
    Sandbox {
        home: vec![name("var"), name("app")],
        documents: Some(documents),
        library: Some(library),
    }
}

fn text_of(path: &SandboxPath) -> String {
    path.components
        .iter()
        .map(|component| component.text.as_str())
        .collect::<Vec<_>>()
        .join("/")
}

fn test_save(marker: u32) -> Vec<u8> {
    let mut bytes = b"ISAACNGSAVE09R  ".to_vec();
    bytes.extend_from_slice(&marker.to_le_bytes());
    for section in 1_u32..=10 {
        bytes.extend_from_slice(&section.to_le_bytes());
        bytes.extend_from_slice(&0_u32.to_le_bytes());
        bytes.extend_from_slice(&0_u32.to_le_bytes());
    }
    bytes.extend_from_slice(&11_u32.to_le_bytes());
    bytes.extend_from_slice(&0_u32.to_le_bytes());
    bytes.extend_from_slice(&4_u32.to_le_bytes());
    for subtype in [4_u32, 2, 3, 1] {
        bytes.extend_from_slice(&subtype.to_le_bytes());
        bytes.extend_from_slice(&0_u32.to_le_bytes());
    }
    bytes.extend_from_slice(&[0_u8; 4]);
    let checksum = isaac_crc32(&bytes[16..], 0xfedc_ba76);
    bytes.extend_from_slice(&checksum.to_le_bytes());
    bytes
}

fn read(bytes: &[u8]) -> Result<FileIdentity, ReadError> {
    let stat = FileStat {
        len: bytes.len() as u64,
        modified_unix_ms: Some(77),
    };
    canonical_identity_for_path_once(stat, bytes, stat)
}

/// Searches a sandbox whose files hold the given bytes.
fn search(
    sandbox: &Sandbox,
    excluded: &BTreeSet<u8>,
    contents: &[(&str, Vec<u8>)],
) -> Result<Vec<LocalSave>, DiscoveryError> {
    let reads = discovery_candidates(sandbox, excluded, &None)
        .iter()
        .map(|path| {
            let text = text_of(path);
            let found = contents.iter().find(|(name, _)| *name == text).unwrap();
            read(&found.1)
        })
        .collect();
    discover_saves(sandbox, excluded, &reads)
}

#[test]
fn discovery_is_sandbox_relative_and_ignores_our_backups() {
    let home = sandbox(
        vec![file("rep_persistentgamedata1.dat")],
        vec![directory(
            "Application Support",
            vec![directory(
                "IsaacCloudSync",
                vec![directory(
                    "backups",
                    vec![directory("slot1", vec![file("rep_persistentgamedata1.dat")])],
                )],
            )],
        )],
    );
    let live = test_save(1);
    let saves = search(
        &home,
        &BTreeSet::new(),
        &[("Documents/rep_persistentgamedata1.dat", live.clone())],
    )
    .unwrap();
    assert_eq!(saves.len(), 1);
    assert_eq!(saves[0].slot, 1);
    assert_eq!(
        saves[0].relative_path,
        "Documents/rep_persistentgamedata1.dat"
    );
    let expected = identity_for_bytes(&live);
    assert_eq!(saves[0].identity.sha256, expected.sha256);
    assert_eq!(saves[0].identity.steam_sha1, expected.steam_sha1);
    assert_eq!(saves[0].identity.size, expected.size);
}

#[test]
fn repentance_files_override_legacy_files_per_slot() {
    let home = sandbox(
        vec![
            file("persistentgamedata1.dat"),
            file("persistentgamedata2.dat"),
            directory("Repentance", vec![file("rep_persistentgamedata1.dat")]),
        ],
        vec![],
    );
    let saves = search(
        &home,
        &BTreeSet::new(),
        &[
            (
                "Documents/persistentgamedata1.dat",
                b"valid-for-an-older-DLC-but-not-Repentance".to_vec(),
            ),
            ("Documents/persistentgamedata2.dat", test_save(2)),
            ("Documents/Repentance/rep_persistentgamedata1.dat", test_save(3)),
        ],
    )
    .unwrap();
    assert_eq!(saves.len(), 2);
    let slot1 = saves.iter().find(|save| save.slot == 1).unwrap();
    let slot2 = saves.iter().find(|save| save.slot == 2).unwrap();
    assert_eq!(
        slot1.relative_path,
        "Documents/Repentance/rep_persistentgamedata1.dat"
    );
    assert_eq!(slot2.relative_path, "Documents/persistentgamedata2.dat");
}

#[test]
fn queued_restore_can_locate_a_temporarily_invalid_live_slot() {
    let home = sandbox(
        vec![directory("Repentance", vec![file("rep_persistentgamedata3.dat")])],
        vec![directory(
            "Application Support",
            vec![directory(
                "IsaacCloudSync",
                vec![directory(
                    "backups",
                    vec![directory("slot3", vec![file("rep_persistentgamedata3.dat")])],
                )],
            )],
        )],
    );
    let found =
        locate_save_path_for_restore(&home, &BTreeSet::new(), 3, "rep_persistentgamedata3.dat")
            .unwrap();
    assert_eq!(text_of(&found), "Documents/Repentance/rep_persistentgamedata3.dat");
}

#[test]
fn excluded_slots_are_skipped_during_discovery() {
    let home = sandbox(
        vec![directory(
            "Repentance",
            vec![
                file("rep_persistentgamedata1.dat"),
                file("rep_persistentgamedata3.dat"),
            ],
        )],
        vec![],
    );
    let contents = [
        ("Documents/Repentance/rep_persistentgamedata1.dat", test_save(1)),
        ("Documents/Repentance/rep_persistentgamedata3.dat", test_save(3)),
    ];

    // Before exclusion: both slot 1 and 3 are found
    let saves = search(&home, &BTreeSet::new(), &contents).unwrap();
    assert_eq!(saves.len(), 2);

    // Exclude slot 3 via set_slot_excluded
    let list = set_slot_excluded(&vec![], 3, true).unwrap();
    let excluded = excluded_in(&list);
    assert!(excluded.contains(&3));

    // After exclusion: only slot 1 is found, slot 3 is skipped
    let saves = search(&home, &excluded, &contents).unwrap();
    assert_eq!(saves.len(), 1);
    assert_eq!(saves[0].slot, 1);
}

#[test]
fn only_readable_regular_files_are_looked_at() {
    let mut strange = name("rep_persistentgamedata1.dat");
    strange.utf8 = false;
    let home = Sandbox {
        home: vec![],
        documents: Some(vec![
            Entry::Other,
            Entry::File { name: strange },
            directory("IsaacCloudSync", vec![file("a")]),
            file("b"),
        ]),
        library: None,
    };
    let files: Vec<String> = sandbox_files(&home).iter().map(text_of).collect();
    assert_eq!(files, vec!["Documents/b"]);
}

#[test]
fn deep_directories_are_left_alone() {
    let mut entries = vec![file("rep_persistentgamedata1.dat")];
    for level in 0..6 {
        entries = vec![directory(&format!("d{level}"), entries)];
    }
    assert_eq!(sandbox_files(&sandbox(entries, vec![])).len(), 1);
    let mut entries = vec![file("rep_persistentgamedata1.dat")];
    for level in 0..7 {
        entries = vec![directory(&format!("d{level}"), entries)];
    }
    assert_eq!(sandbox_files(&sandbox(entries, vec![])).len(), 0);
}

#[test]
fn searches_end_at_or_pass_over_invalid_files() {
    let home = sandbox(
        vec![
            file("rep_persistentgamedata2.dat"),
            file("rep_persistentgamedata1.dat"),
        ],
        vec![],
    );
    let none = BTreeSet::new();
    let reads = vec![read(b"broken"), read(&test_save(1))];
    let error = discover_saves(&home, &none, &reads).unwrap_err();
    assert!(matches!(error, DiscoveryError::Unreadable { slot: 2, .. }));
    assert_eq!(
        error.message(&home.home),
        "validate local save slot 2: LZ4 literal is outside the bounded save stream"
    );
    let missing = ReadError::Unavailable("stat /x: No such file".to_owned());
    let error = discover_saves(&home, &none, &vec![Err(missing)]).unwrap_err();
    assert_eq!(
        error.message(&home.home),
        "validate local save slot 2: stat /x: No such file"
    );
    // The search need not read on behind the file that ends it.
    assert!(discover_saves(&home, &none, &vec![read(b"broken")]).is_err());
    let saves = discover_saves_immediate(&home, &none, &reads).unwrap();
    assert_eq!(saves.len(), 1);
    assert_eq!(saves[0].slot, 1);
    // The saves come by path, whatever the order of the listing.
    let both = vec![read(&test_save(2)), read(&test_save(1))];
    let slots: Vec<u8> = discover_saves(&home, &none, &both)
        .unwrap()
        .iter()
        .map(|save| save.slot)
        .collect();
    assert_eq!(slots, vec![1, 2]);
    let only = Some(BTreeSet::from([2]));
    let saves =
        discover_saves_for_slots(&home, &none, &only, &vec![read(&test_save(2))]).unwrap();
    assert_eq!(saves[0].slot, 2);
    let mut large = identity_for_bytes(b"");
    large.size = 33_554_433;
    let error = discover_saves_for_slots(&home, &none, &only, &vec![Ok(large)]).unwrap_err();
    assert_eq!(
        error.message(&home.home),
        "candidate save is unexpectedly large: /var/app/Documents/rep_persistentgamedata2.dat"
    );
}

#[test]
fn slots_only_filter_what_is_found() {
    let home = sandbox(
        vec![
            file("rep_persistentgamedata3.dat"),
            file("rep_persistentgamedata2.dat"),
            file("rep_persistentgamedata1.dat"),
            directory("Repentance", vec![file("rep_persistentgamedata1.dat")]),
        ],
        vec![],
    );
    let excluded = BTreeSet::from([3]);
    let found = |allowed: &Option<BTreeSet<u8>>| -> Vec<String> {
        let paths = discovery_candidates(&home, &excluded, allowed);
        let reads = paths.iter().map(|_| read(&test_save(1))).collect();
        discover_saves_for_slots(&home, &excluded, allowed, &reads)
            .unwrap()
            .into_iter()
            .map(|save| save.relative_path)
            .collect()
    };
    let all = found(&None);
    assert_eq!(
        all,
        vec![
            "Documents/Repentance/rep_persistentgamedata1.dat",
            "Documents/rep_persistentgamedata1.dat",
            "Documents/rep_persistentgamedata2.dat",
        ]
    );
    assert_eq!(found(&Some(BTreeSet::from([1, 3]))), all[..2].to_vec());
    assert_eq!(found(&Some(BTreeSet::from([2]))), all[2..].to_vec());
    assert_eq!(found(&Some(BTreeSet::from([3]))), Vec::<String>::new());
}

#[test]
fn invalid_repentance_files_do_not_bring_older_ones_back() {
    let home = sandbox(
        vec![file("persistentgamedata1.dat"), file("rep_persistentgamedata1.dat")],
        vec![],
    );
    let none = BTreeSet::new();
    let paths = discovery_candidates(&home, &none, &None);
    assert_eq!(
        paths.iter().map(text_of).collect::<Vec<_>>(),
        vec!["Documents/rep_persistentgamedata1.dat"]
    );
    let saves = discover_saves_immediate(&home, &none, &vec![read(b"broken")]).unwrap();
    assert!(saves.is_empty());
}

#[test]
fn restores_choose_the_best_file() {
    let home = sandbox(
        vec![
            file("persistentgamedata1.dat"),
            directory("REPENTANCE", vec![file("rep+persistentgamedata1.dat")]),
        ],
        vec![file("rep_persistentgamedata1.dat")],
    );
    let none = BTreeSet::new();
    let locate = |preferred: &str| {
        locate_save_path_for_restore(&home, &none, 1, preferred).map(|path| text_of(&path))
    };
    assert_eq!(
        locate("REP_persistentgamedata1.dat"),
        Ok("Library/rep_persistentgamedata1.dat".to_owned())
    );
    assert_eq!(
        locate("rep+persistentgamedata1.dat"),
        Ok("Documents/REPENTANCE/rep+persistentgamedata1.dat".to_owned())
    );
    assert_eq!(locate("rep_persistentgamedata2.dat"), Err(LocateError::FilenameMismatch));
    assert_eq!(
        locate_save_path_for_restore(&home, &BTreeSet::from([1]), 1, "rep_persistentgamedata1.dat")
            .unwrap_err()
            .message(),
        "slot 1 is excluded from sync"
    );
    assert_eq!(
        locate_save_path_for_restore(&home, &none, 2, "rep_persistentgamedata2.dat").unwrap_err(),
        LocateError::NotFound
    );
    let twice = sandbox(
        vec![file("rep_persistentgamedata1.dat")],
        vec![file("rep_persistentgamedata1.dat")],
    );
    assert_eq!(
        locate_save_path_for_restore(&twice, &none, 1, "rep_persistentgamedata1.dat").unwrap_err(),
        LocateError::Ambiguous
    );
    let path = SandboxPath { components: vec![name("Documents"), name("x")] };
    assert_eq!(restore_path_rank(&vec![name("repentance")], &path, "X"), 0);
    assert_eq!(restore_path_rank(&vec![], &path, "X"), 1);
    assert_eq!(restore_path_rank(&vec![], &path, "y"), 3);
}

#[test]
fn reads_of_changing_files_are_refused() {
    let bytes = test_save(1);
    let stat = FileStat { len: bytes.len() as u64, modified_unix_ms: Some(5) };
    let identity = canonical_identity_for_path_once(stat, &bytes, stat).unwrap();
    assert_eq!(identity.sha256, identity_for_bytes(&bytes).sha256);
    assert_eq!(identity.modified_unix_ms, Some(5));
    let later = FileStat { modified_unix_ms: Some(6), ..stat };
    assert_eq!(
        canonical_identity_for_path_once(stat, &bytes, later).unwrap_err(),
        ReadError::Changed
    );
    let longer = FileStat { len: stat.len + 1, ..stat };
    assert_eq!(
        canonical_identity_for_path_once(longer, &bytes, longer).unwrap_err(),
        ReadError::Changed
    );
    let huge = FileStat { len: 33_554_433, ..stat };
    assert_eq!(
        canonical_identity_for_path_once(huge, &bytes, huge).unwrap_err(),
        ReadError::TooLarge
    );
    assert!(admits_size(33_554_432));
    assert!(matches!(read(b"x"), Err(ReadError::Format(_))));
    assert_eq!(
        ReadError::Changed.message(),
        "Isaac save changed while it was being read"
    );
}

#[test]
fn reads_are_tried_again() {
    assert_eq!(after_attempt(0, true), ReadStep::Finished);
    assert_eq!(after_attempt(0, false), ReadStep::RetryAfterMs(100));
    assert_eq!(after_attempt(118, false), ReadStep::RetryAfterMs(100));
    assert_eq!(after_attempt(119, false), ReadStep::GiveUp);
}

#[test]
fn snapshots_need_a_quiet_file() {
    let quiet = identity_for_file(b"abc", 3, Some(1));
    let touched = identity_for_file(b"abc", 3, Some(2));
    let other = identity_for_file(b"abd", 3, Some(1));
    let snapshot = |first, second, third, staged, after| {
        wait_for_stable_snapshot(first, second, third, staged, after)
    };
    assert_eq!(
        snapshot(&quiet, &quiet, &quiet, &touched, &quiet).unwrap().sha256,
        quiet.sha256
    );
    assert_eq!(
        snapshot(&quiet, &touched, &touched, &quiet, &quiet).unwrap_err(),
        SnapshotError::StillWritten
    );
    assert_eq!(
        snapshot(&quiet, &quiet, &quiet, &other, &quiet).unwrap_err(),
        SnapshotError::ChangedWhileStaging
    );
    assert_eq!(
        snapshot(&quiet, &quiet, &quiet, &quiet, &touched).unwrap_err(),
        SnapshotError::ChangedWhileStaging
    );
    assert!(same_observation(&quiet, &quiet));
    assert!(!same_observation(&quiet, &touched));
    assert!(check_settled(&quiet, &quiet, &quiet).is_ok());
    assert!(check_staged(&quiet, &quiet, &quiet).is_ok());
    assert_eq!(SnapshotError::StillWritten.message(), "save is still being written");
    assert_eq!(quiet.size, 3);
}

#[test]
fn times_are_milliseconds() {
    let passed = |secs, nanos| Some(Elapsed { secs, nanos });
    assert_eq!(system_time_ms(passed(1, 234_999_999)), Some(1234));
    assert_eq!(system_time_ms(passed(0, 999_999)), Some(0));
    assert_eq!(system_time_ms(passed(u64::MAX, 0)), Some(u64::MAX - 999));
    assert_eq!(system_time_ms(None), None);
    assert_eq!(unix_ms_after(passed(1, 234_999_999)), 1234);
    assert_eq!(unix_ms_after(None), 0);
    assert!(unix_ms() > 1_600_000_000_000);
}
