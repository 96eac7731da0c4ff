use isaac_cloud_sync::cloud::{list_isaac_saves, AppFileInfo, Changelist, CloudError, CloudFile};
use isaac_cloud_sync::digest::sha1_digest;
use isaac_cloud_sync::transfer::{BlockRequest, MAX_SAVE_TRANSFER_SIZE};
use isaac_cloud_sync::upload::{Upload, UploadAction, UploadEvent, UploadFailure};

const NAME: &str = "rep_persistentgamedata1.dat";

fn part(offset: u64, length: u32) -> BlockRequest {
    BlockRequest {
        url_host: Some("host".to_owned()),
        url_path: Some("/put".to_owned()),
        use_https: None,
        block_offset: Some(offset),
        block_length: Some(length),
        explicit_body_data: None,
        request_headers: vec![],
    }
}

fn listed(contents: &[u8]) -> Vec<CloudFile> {
    let response = Changelist {
        current_change_number: Some(1),
        is_only_delta: None,
        path_prefixes: vec![],
        files: vec![AppFileInfo {
            file_name: Some(NAME.to_owned()),
            sha_file: Some(sha1_digest(contents)),
            time_stamp: Some(1),
            raw_file_size: Some(contents.len() as u32),
            persist_state: None,
            path_prefix_index: None,
        }],
    };
    list_isaac_saves(&response).unwrap().1
}

fn begun(blocks: Vec<BlockRequest>) -> UploadEvent {
    UploadEvent::FileBegun { encrypt_file: None, blocks }
}

fn behind(events: Vec<UploadEvent>) -> UploadAction {
    let mut upload = Upload::new(NAME, b"abcd").unwrap();
    for event in events {
        upload = upload.step(event);
    }
    upload.action()
}

#[test]
fn uploads_go_from_batch_to_verification() {
    let upload = Upload::new(NAME, b"abcd").unwrap();
    assert!(matches!(
        upload.action(),
        UploadAction::BeginBatch(request) if request.file_to_upload == NAME
    ));
    let upload = upload.step(UploadEvent::BatchBegun(Some(9)));
    let UploadAction::BeginFile(request) = upload.action() else {
        panic!("the file is begun next");
    };
    assert_eq!((request.upload_batch_id, request.file_size), (9, 4));
    assert_eq!(request.file_sha, sha1_digest(b"abcd"));
    let upload = upload.step(begun(vec![part(0, 3), part(3, 1)]));
    assert!(matches!(upload.action(), UploadAction::Send(plan) if plan.body == b"abc"));
    let upload = upload.step(UploadEvent::PartSent(true));
    assert!(matches!(upload.action(), UploadAction::Send(plan) if plan.body == b"d"));
    let upload = upload.step(UploadEvent::PartSent(true));
    assert!(matches!(
        upload.action(),
        UploadAction::Commit(request) if request.transfer_succeeded
    ));
    let upload = upload.step(UploadEvent::Committed(Some(true)));
    assert!(matches!(
        upload.action(),
        UploadAction::Complete(request) if (request.batch_id, request.batch_eresult) == (9, 1)
    ));
    let upload = upload.step(UploadEvent::Completed);
    assert!(matches!(upload.action(), UploadAction::List));
    let upload = upload.step(UploadEvent::Listed(listed(b"abcd")));
    assert!(matches!(
        upload.action(),
        UploadAction::Verified(file) if file.request_name == NAME
    ));
}

#[test]
fn failed_uploads_still_complete_their_batch() {
    let batch = || UploadEvent::BatchBegun(Some(9));
    let failing: Vec<(Vec<UploadEvent>, UploadFailure)> = vec![
        (vec![UploadEvent::CallFailed], UploadFailure::Call),
        (
            vec![UploadEvent::FileBegun { encrypt_file: Some(true), blocks: vec![] }],
            UploadFailure::Cloud(CloudError::EncryptionRequested),
        ),
        (
            vec![begun(vec![part(0, 5)])],
            UploadFailure::Cloud(CloudError::BlockOutside),
        ),
        (
            vec![
                begun(vec![part(0, 2), part(2, 2)]),
                UploadEvent::PartSent(false),
                UploadEvent::Committed(Some(true)),
            ],
            UploadFailure::Cloud(CloudError::NotCommitted),
        ),
        (
            vec![begun(vec![]), UploadEvent::Committed(None)],
            UploadFailure::Cloud(CloudError::NotCommitted),
        ),
        (vec![begun(vec![]), UploadEvent::CallFailed], UploadFailure::Call),
    ];
    for (events, failure) in failing {
        let mut upload = Upload::new(NAME, b"abcd").unwrap().step(batch());
        for event in events {
            upload = upload.step(event);
        }
        assert!(matches!(
            upload.action(),
            UploadAction::Complete(request) if (request.batch_id, request.batch_eresult) == (9, 2)
        ));
        let upload = upload.step(UploadEvent::CallFailed);
        assert!(matches!(upload.action(), UploadAction::Failed(found) if found == failure));
    }
}

#[test]
fn interrupted_parts_are_not_reported_as_sent() {
    let action = behind(vec![
        UploadEvent::BatchBegun(Some(1)),
        begun(vec![part(0, 2), part(2, 2)]),
        UploadEvent::PartSent(false),
    ]);
    assert!(matches!(action, UploadAction::Commit(request) if !request.transfer_succeeded));
}

#[test]
fn uploads_end_where_steam_does_not_go_on() {
    let failed = |action: UploadAction, failure: UploadFailure| {
        matches!(action, UploadAction::Failed(found) if found == failure)
    };
    assert!(failed(behind(vec![UploadEvent::CallFailed]), UploadFailure::Call));
    assert!(failed(
        behind(vec![UploadEvent::BatchBegun(None)]),
        UploadFailure::Cloud(CloudError::BatchIdMissing)
    ));
    let committed = || {
        vec![
            UploadEvent::BatchBegun(Some(1)),
            begun(vec![]),
            UploadEvent::Committed(Some(true)),
        ]
    };
    let mut events = committed();
    events.push(UploadEvent::CallFailed);
    assert!(failed(behind(events), UploadFailure::Completion));
    let mut events = committed();
    events.extend([UploadEvent::Completed, UploadEvent::Listed(listed(b"other"))]);
    assert!(failed(behind(events), UploadFailure::Cloud(CloudError::NotVerifiable)));
    assert_eq!(
        Upload::new(NAME, &vec![0; MAX_SAVE_TRANSFER_SIZE + 1]).unwrap_err(),
        CloudError::UploadLimit
    );
}

#[test]
fn unexpected_events_change_nothing() {
    let action = behind(vec![UploadEvent::Completed, UploadEvent::PartSent(true)]);
    assert!(matches!(action, UploadAction::BeginBatch(_)));
}
