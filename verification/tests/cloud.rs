use isaac_cloud_sync::archive::{
    check_contents, check_entry, check_entry_count, unpack_single_zip_entry, DownloadError,
};
use isaac_cloud_sync::cloud::{
    basename, join_cloud_name, list_isaac_saves, remote_save_priority, AppFileInfo, Changelist,
    CloudError, CloudFile,
};
use isaac_cloud_sync::digest::{identity_for_bytes, sha1_digest};
use isaac_cloud_sync::ids::{
    client_id_of, operation_id, random_client_id, temp_name_for, unique_temp_path,
};
use isaac_cloud_sync::transfer::{
    batch_of, batch_request, block_plan, changelist_request, check_committed,
    check_content_length, check_rpc, check_upload_begun, commit_request, complete_request, download,
    download_plan, download_request, rpc_failure_message, upload_digest, upload_request,
    upload_request_at, upload_verified, verify_download, BlockRequest, DownloadInfo,
    OfferedHeader, MAX_SAVE_TRANSFER_SIZE,
};
use std::io::{Cursor, Write};

#[test]
fn cloud_name_preserves_steam_prefix() {
    assert_eq!(
        join_cloud_name(
            "WinMy Games/Binding of Isaac Repentance",
            "rep_persistentgamedata1.dat"
        ),
        "WinMy Games/Binding of Isaac Repentance/rep_persistentgamedata1.dat"
    );
    assert_eq!(
        join_cloud_name("", "rep_persistentgamedata2.dat"),
        "rep_persistentgamedata2.dat"
    );
}

fn archive_of(files: &[(&str, &[u8])]) -> Vec<u8> {
    let mut cursor = Cursor::new(Vec::new());
    {
        let mut archive = zip::ZipWriter::new(&mut cursor);
        for (name, contents) in files {
            archive
                .start_file(*name, zip::write::SimpleFileOptions::default())
                .unwrap();
            archive.write_all(contents).unwrap();
        }
        archive.finish().unwrap();
    }
    cursor.into_inner()
}

#[test]
fn compressed_download_accepts_exactly_one_file() {
    let mut cursor = Cursor::new(Vec::new());
    {
        let mut archive = zip::ZipWriter::new(&mut cursor);
        archive
            .start_file(
                "rep_persistentgamedata1.dat",
                zip::write::SimpleFileOptions::default(),
            )
            .unwrap();
        archive.write_all(b"verified-save").unwrap();
        archive.finish().unwrap();
    }
    assert_eq!(
        unpack_single_zip_entry(cursor.get_ref(), b"verified-save".len()).unwrap(),
        b"verified-save"
    );
    assert!(unpack_single_zip_entry(cursor.get_ref(), 4).is_err());
}

#[test]
fn other_archives_are_refused() {
    let error = unpack_single_zip_entry(b"no archive", 100).unwrap_err();
    assert!(error.message().starts_with("invalid Zip archive"));
    assert_eq!(
        unpack_single_zip_entry(&archive_of(&[]), 100),
        Err(DownloadError::Cloud(CloudError::ArchiveEntryCount))
    );
    assert_eq!(
        unpack_single_zip_entry(&archive_of(&[("a", b"1"), ("b", b"2")]), 100),
        Err(DownloadError::Cloud(CloudError::ArchiveEntryCount))
    );
    assert_eq!(
        unpack_single_zip_entry(&archive_of(&[("a", b"12345")]), 4),
        Err(DownloadError::Cloud(CloudError::ArchiveTooLarge))
    );
    let mut cursor = Cursor::new(Vec::new());
    {
        let mut archive = zip::ZipWriter::new(&mut cursor);
        archive
            .add_directory("folder", zip::write::SimpleFileOptions::default())
            .unwrap();
        archive.finish().unwrap();
    }
    assert_eq!(
        unpack_single_zip_entry(cursor.get_ref(), 100),
        Err(DownloadError::Cloud(CloudError::ArchiveDirectory))
    );
    // A damaged body does not match its checksum.
    let mut damaged = archive_of(&[("a", b"some contents that are stored here")]);
    let at = damaged.iter().position(|byte| *byte == b'a').unwrap() + 2;
    damaged[at] ^= 0x55;
    assert!(unpack_single_zip_entry(&damaged, 100).is_err());
}

#[test]
fn archive_checks_are_exact() {
    let reason = || "no end of central directory".to_owned();
    let unreadable = || DownloadError::Archive(reason());
    let refused = DownloadError::Cloud;
    assert_eq!(check_entry_count(Err(reason())), Err(unreadable()));
    assert_eq!(check_entry_count(Ok(1)), Ok(()));
    assert_eq!(check_entry_count(Ok(2)), Err(refused(CloudError::ArchiveEntryCount)));
    assert_eq!(check_entry(Err(reason()), 5), Err(unreadable()));
    assert_eq!(check_entry(Ok((false, 5)), 5), Ok(()));
    assert_eq!(check_entry(Ok((false, 6)), 5), Err(refused(CloudError::ArchiveTooLarge)));
    assert_eq!(check_entry(Ok((true, 0)), 5), Err(refused(CloudError::ArchiveDirectory)));
    assert_eq!(check_contents(Ok(vec![1, 2]), 2), Ok(vec![1, 2]));
    assert_eq!(check_contents(Ok(vec![1, 2]), 1), Err(refused(CloudError::ArchiveTooLarge)));
    assert_eq!(check_contents(Err(reason()), 1), Err(unreadable()));
    assert_eq!(unreadable().message(), "no end of central directory");
}

#[test]
fn hashes_have_known_values() {
    let identity = identity_for_bytes(b"abc");
    assert_eq!(
        identity.sha256,
        "ba7816bf8f01cfea414140de5dae2223b00361a396177a9cb410ff61f20015ad"
    );
    assert_eq!(
        identity.steam_sha1.as_deref(),
        Some("a9993e364706816aba3e25717850c26c9cd0d89d")
    );
    assert_eq!(identity.size, 3);
    assert_eq!(identity.modified_unix_ms, None);
    assert_eq!(sha1_digest(b"abc")[..3], [0xa9, 0x99, 0x3e]);
}

#[test]
fn names_end_behind_the_last_separator() {
    assert_eq!(basename("a/b\\c.dat"), "c.dat");
    assert_eq!(basename("c.dat"), "c.dat");
    assert_eq!(basename("a/"), "");
    assert_eq!(join_cloud_name("a\\", "b"), "a\\b");
    assert_eq!(join_cloud_name("a/", "b"), "a/b");
}

fn listed(name: &str, prefix: Option<u32>, time: u64) -> AppFileInfo {
    AppFileInfo {
        file_name: Some(name.to_owned()),
        sha_file: Some(vec![0xab, 0x01]),
        time_stamp: Some(time),
        raw_file_size: Some(10),
        persist_state: None,
        path_prefix_index: prefix,
    }
}

fn changelist(files: Vec<AppFileInfo>) -> Changelist {
    Changelist {
        is_only_delta: None,
        files,
        path_prefixes: vec!["Saves".to_owned()],
        current_change_number: Some(7),
    }
}

#[test]
fn each_slot_is_listed_once() {
    let mut deleted = listed("rep+persistentgamedata1.dat", None, 900);
    deleted.persist_state = Some(1);
    let files = vec![
        listed("rep_persistentgamedata2.dat", Some(0), 5),
        listed("persistentgamedata1.dat", None, 100),
        listed("rep_persistentgamedata1.dat", None, 10),
        listed("rep_persistentgamedata1.dat", Some(0), 30),
        listed("rep_persistentgamedata1.dat", Some(9), 30),
        listed("options.ini", None, 1),
        deleted,
    ];
    let (change_number, saves) = list_isaac_saves(&changelist(files)).unwrap();
    assert_eq!(change_number, 7);
    assert_eq!(saves.len(), 2);
    assert_eq!(saves[0].save.slot, 1);
    assert_eq!(saves[0].request_name, "Saves/rep_persistentgamedata1.dat");
    assert_eq!(saves[0].save.path_prefix, "Saves");
    assert_eq!(saves[0].save.filename, "rep_persistentgamedata1.dat");
    assert_eq!(saves[0].save.identity.modified_unix_ms, Some(30_000));
    assert_eq!(saves[0].save.identity.steam_sha1.as_deref(), Some("ab01"));
    assert_eq!(saves[0].save.identity.size, 10);
    assert_eq!(saves[0].save.identity.sha256, "");
    assert_eq!(saves[1].request_name, "Saves/rep_persistentgamedata2.dat");
}

#[test]
fn newer_generation_wins_over_newer_time() {
    let files = vec![
        listed("rep_persistentgamedata3.dat", None, 900),
        listed("rep+persistentgamedata3.dat", None, 1),
    ];
    let (_, saves) = list_isaac_saves(&changelist(files)).unwrap();
    assert_eq!(saves[0].request_name, "rep+persistentgamedata3.dat");
    assert_eq!(remote_save_priority("x/REP+persistentgamedata1.dat"), 3);
    assert_eq!(remote_save_priority("rep_persistentgamedata1.dat"), 2);
    assert_eq!(remote_save_priority("persistentgamedata1.dat"), 1);
}

#[test]
fn lists_of_changes_are_refused() {
    let mut response = changelist(vec![]);
    response.is_only_delta = Some(true);
    assert_eq!(list_isaac_saves(&response).unwrap_err(), CloudError::DeltaOnly);
    response.is_only_delta = Some(false);
    response.current_change_number = None;
    assert_eq!(list_isaac_saves(&response).unwrap().0, 0);
}

#[test]
fn distant_times_saturate() {
    let files = vec![listed("rep_persistentgamedata1.dat", None, u64::MAX)];
    let (_, saves) = list_isaac_saves(&changelist(files)).unwrap();
    assert_eq!(saves[0].save.identity.modified_unix_ms, Some(u64::MAX));
}

fn info() -> DownloadInfo {
    DownloadInfo {
        is_explicit_delete: None,
        encrypted: None,
        url_host: Some("host".to_owned()),
        url_path: Some("/path".to_owned()),
        use_https: None,
        raw_file_size: Some(3),
        file_size: None,
        request_headers: vec![
            OfferedHeader { name: Some("a".to_owned()), value: Some("1".to_owned()) },
            OfferedHeader { name: Some("b".to_owned()), value: None },
        ],
        sha_file: None,
    }
}

fn cloud_file(name: &str, sha: &[u8]) -> CloudFile {
    let mut file = listed(name, None, 1);
    file.sha_file = Some(sha.to_vec());
    let (_, mut saves) = list_isaac_saves(&changelist(vec![file])).unwrap();
    saves.remove(0)
}

#[test]
fn downloads_are_planned() {
    let plan = download_plan(&info()).unwrap();
    assert_eq!(plan.url, "https://host/path");
    assert_eq!((plan.raw_size, plan.file_size), (3, 3));
    assert_eq!(plan.headers.len(), 1);
    assert_eq!((plan.headers[0].name.as_str(), plan.headers[0].value.as_str()), ("a", "1"));
    let mut plain = info();
    plain.use_https = Some(false);
    plain.file_size = Some(9);
    let plan = download_plan(&plain).unwrap();
    assert_eq!(plan.url, "http://host/path");
    assert_eq!(plan.file_size, 9);
}

#[test]
fn unusable_downloads_are_named() {
    let mut bad = info();
    bad.is_explicit_delete = Some(true);
    assert_eq!(download_plan(&bad).unwrap_err(), CloudError::ExplicitDelete);
    let mut bad = info();
    bad.encrypted = Some(true);
    assert_eq!(download_plan(&bad).unwrap_err(), CloudError::Encrypted);
    let mut bad = info();
    bad.url_host = None;
    assert_eq!(download_plan(&bad).unwrap_err(), CloudError::DownloadHostMissing);
    let mut bad = info();
    bad.url_path = None;
    assert_eq!(download_plan(&bad).unwrap_err(), CloudError::DownloadPathMissing);
    let mut bad = info();
    bad.raw_file_size = None;
    assert_eq!(download_plan(&bad).unwrap_err(), CloudError::RawSizeMissing);
    let mut bad = info();
    bad.raw_file_size = Some(33_554_433);
    assert_eq!(download_plan(&bad).unwrap_err(), CloudError::TransferLimit);
    let mut bad = info();
    bad.file_size = Some(33_554_433);
    assert_eq!(download_plan(&bad).unwrap_err(), CloudError::TransferLimit);
    assert_eq!(check_content_length(Some(33_554_433)), Err(CloudError::ResponseLimit));
    assert_eq!(check_content_length(Some(33_554_432)), Ok(()));
    assert_eq!(check_content_length(None), Ok(()));
}

#[test]
fn downloads_are_verified() {
    let file = cloud_file("rep_persistentgamedata1.dat", &sha1_digest(b"abc"));
    let plan = download_plan(&info()).unwrap();
    assert_eq!(download(b"abc".to_vec(), &plan, &info(), &file), Ok(b"abc".to_vec()));
    assert_eq!(
        download(b"abd".to_vec(), &plan, &info(), &file),
        Err(DownloadError::Cloud(CloudError::ShaMismatch))
    );
    assert_eq!(
        download(b"ab".to_vec(), &plan, &info(), &file),
        Err(DownloadError::Cloud(CloudError::SizeMismatch { actual: 2, expected: 3 }))
    );
    assert_eq!(
        CloudError::SizeMismatch { actual: 2, expected: 3 }.message(),
        "downloaded size 2 does not match expected 3"
    );
    // The hash that comes with the address counts before the listed one.
    let mut other = info();
    other.sha_file = Some(sha1_digest(b"abd"));
    assert_eq!(download(b"abd".to_vec(), &plan, &other, &file), Ok(b"abd".to_vec()));
    assert_eq!(
        verify_download(b"abc".to_vec(), 3, None),
        Ok(b"abc".to_vec())
    );
    let huge = vec![0; MAX_SAVE_TRANSFER_SIZE + 1];
    assert_eq!(
        download(huge, &plan, &info(), &file),
        Err(DownloadError::Cloud(CloudError::ResponseLimit))
    );
}

#[test]
fn compressed_downloads_are_unpacked() {
    let file = cloud_file("rep_persistentgamedata1.dat", &sha1_digest(b"abc"));
    let body = archive_of(&[("save", b"abc")]);
    let mut packed = info();
    packed.file_size = Some(body.len() as u32);
    let plan = download_plan(&packed).unwrap();
    assert_eq!(download(body, &plan, &packed, &file), Ok(b"abc".to_vec()));
    assert!(matches!(
        download(b"abc".to_vec(), &plan, &packed, &file),
        Err(DownloadError::Archive(_))
    ));
}

#[test]
fn requests_hold_what_steam_expects() {
    assert_eq!(changelist_request().appid, 250_900);
    assert_eq!(changelist_request().synced_change_number, 0);
    let file = cloud_file("rep_persistentgamedata1.dat", b"");
    let request = download_request(&file);
    assert_eq!(request.filename, "rep_persistentgamedata1.dat");
    assert_eq!((request.appid, request.realm, request.force_proxy), (250_900, 1, false));
    let request = batch_request("name");
    assert_eq!(request.machine_name, "IsaacCloudSync iPhone");
    assert_eq!(request.file_to_upload, "name");
    let request = upload_request_at(5, "name", b"abc", b"sha", 12_999);
    assert_eq!((request.file_size, request.raw_file_size), (3, 3));
    assert_eq!(request.time_stamp, 12);
    assert_eq!(request.upload_batch_id, 5);
    assert_eq!(request.platforms_to_sync, u32::MAX);
    assert!(upload_request(5, "name", b"abc", b"sha").time_stamp > 1_600_000_000);
    let request = commit_request(true, "name", b"sha");
    assert!(request.transfer_succeeded);
    assert_eq!(request.file_sha, b"sha");
    assert_eq!(complete_request(5, true).batch_eresult, 1);
    assert_eq!(complete_request(5, false).batch_eresult, 2);
}

#[test]
fn answers_of_steam_are_checked() {
    assert_eq!(check_rpc(None), Ok(()));
    assert_eq!(check_rpc(Some(1)), Ok(()));
    assert_eq!(check_rpc(Some(-2)), Err(-2));
    assert_eq!(
        rpc_failure_message("Cloud.X#1", -2),
        "Steam RPC Cloud.X#1 failed with EResult -2"
    );
    assert_eq!(batch_of(Some(9)), Ok(9));
    assert_eq!(batch_of(None), Err(CloudError::BatchIdMissing));
    assert_eq!(check_upload_begun(Some(true)), Err(CloudError::EncryptionRequested));
    assert_eq!(check_upload_begun(None), Ok(()));
    assert_eq!(check_committed(true, Some(true)), Ok(()));
    assert_eq!(check_committed(true, None), Err(CloudError::NotCommitted));
    assert_eq!(check_committed(false, Some(true)), Err(CloudError::NotCommitted));
}

fn block() -> BlockRequest {
    BlockRequest {
        url_host: Some("host".to_owned()),
        url_path: Some("/put".to_owned()),
        use_https: Some(true),
        block_offset: Some(1),
        block_length: Some(2),
        explicit_body_data: Some(vec![]),
        request_headers: vec![],
    }
}

#[test]
fn blocks_are_cut_out_of_the_save() {
    let plan = block_plan(&block(), b"abcd").unwrap();
    assert_eq!(plan.url, "https://host/put");
    assert_eq!(plan.body, b"bc");
    let mut explicit = block();
    explicit.explicit_body_data = Some(b"xyz".to_vec());
    assert_eq!(block_plan(&explicit, b"abcd").unwrap().body, b"xyz");
    let mut whole = block();
    whole.block_offset = None;
    whole.block_length = None;
    whole.explicit_body_data = None;
    assert_eq!(block_plan(&whole, b"abcd").unwrap().body, b"");
}

#[test]
fn unusable_blocks_are_named() {
    let mut bad = block();
    bad.url_host = None;
    assert_eq!(block_plan(&bad, b"abcd").unwrap_err(), CloudError::UploadHostMissing);
    let mut bad = block();
    bad.url_path = None;
    assert_eq!(block_plan(&bad, b"abcd").unwrap_err(), CloudError::UploadPathMissing);
    let mut bad = block();
    bad.block_length = Some(4);
    assert_eq!(block_plan(&bad, b"abcd").unwrap_err(), CloudError::BlockOutside);
    let mut bad = block();
    bad.block_offset = Some(u64::MAX);
    assert_eq!(block_plan(&bad, b"abcd").unwrap_err(), CloudError::BlockOverflow);
}

#[test]
fn uploads_are_found_by_name_and_hash() {
    let sha = upload_digest(b"abc").unwrap();
    assert_eq!(sha, sha1_digest(b"abc"));
    let files = vec![
        cloud_file("rep_persistentgamedata1.dat", &sha1_digest(b"old")),
        cloud_file("rep_persistentgamedata2.dat", &sha),
    ];
    let found = upload_verified(&files, "rep_persistentgamedata2.dat", &sha).unwrap();
    assert_eq!(found.save.slot, 2);
    assert_eq!(
        upload_verified(&files, "rep_persistentgamedata1.dat", &sha).unwrap_err(),
        CloudError::NotVerifiable
    );
    assert_eq!(
        upload_digest(&vec![0; MAX_SAVE_TRANSFER_SIZE + 1]),
        Err(CloudError::UploadLimit)
    );
    assert_eq!(
        CloudError::NotVerifiable.message(),
        "uploaded Steam file was not verifiable in cloud changelist"
    );
}

#[test]
fn identifiers_are_random_and_well_formed() {
    let id = [
        0x00, 0x11, 0x22, 0x33, 0x44, 0x55, 0x66, 0x77, 0x88, 0x99, 0xaa, 0xbb, 0xcc, 0xdd, 0xee, 0xff,
    ];
    assert_eq!(
        temp_name_for("upload", id),
        ".upload.00112233-4455-6677-8899-aabbccddeeff.tmp"
    );
    assert_eq!(client_id_of(id), 0x7766_5544_3322_1100);
    let name = unique_temp_path("upload");
    assert_eq!(name.len(), ".upload.".len() + 36 + ".tmp".len());
    assert_ne!(name, unique_temp_path("upload"));
    let text = operation_id();
    assert_eq!(text.as_bytes()[14], b'4');
    assert_ne!(text, operation_id());
    assert_ne!(random_client_id(), random_client_id());
}
