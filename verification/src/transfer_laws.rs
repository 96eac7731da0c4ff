//! What is asked of Steam and what is accepted from it, told by the messages themselves.
use vstd::prelude::*;

use crate::archive::{unpacked, DownloadFailure};
use crate::cloud::{CloudError, CloudView};
use crate::digest::{hex_text, sha1_of};
use crate::order::views;
use crate::text::signed_decimal;
use crate::transfer::{
    accepted_download, complete_headers, downloaded_save, expected_sha, first_upload,
    full_list_request, is_request_for, is_upload, length_outcome, planned_block, planned_download,
    rpc_failure, rpc_outcome, transfer_url, BlockRequest, BlockView, DownloadInfo, DownloadRequest,
    HeaderView, OfferedHeader, PlanView,
};
use crate::upload::{
    is_next_action, next_stage, upload_begun, StageView, UploadAction, UploadEvent, UploadFailure,
    UploadProgress,
};

verus! {

/// Whether `headers` are the offered headers that have both a name and a value: all of them, each
/// once and in their order, where `picks` says which each is.
pub open spec fn are_the_complete_headers(
    offered: Seq<OfferedHeader>,
    picks: Seq<int>,
    headers: Seq<HeaderView>,
) -> bool {
    &&& picks.len() == headers.len()
    &&& forall|k: int|
        0 <= k < picks.len() ==> 0 <= #[trigger] picks[k] < offered.len() && (
        offered[picks[k]].name matches Some(name) && name@ == headers[k].name) && (
        offered[picks[k]].value matches Some(value) && value@ == headers[k].value)
    &&& forall|k: int, l: int| 0 <= k < l < picks.len() ==> #[trigger] picks[k] < #[trigger] picks[l]
    &&& forall|i: int|
        0 <= i < offered.len() && (#[trigger] offered[i]).name is Some && offered[i].value is Some
            ==> picks.contains(i)
}

/// Whether `headers` are the offered headers that have both a name and a value.
pub open spec fn sends_what_is_offered(
    offered: Seq<OfferedHeader>,
    headers: Seq<HeaderView>,
) -> bool {
    exists|picks: Seq<int>| #[trigger] are_the_complete_headers(offered, picks, headers)
}

/// Which of the first `count` headers are complete.
spec fn complete_positions(offered: Seq<OfferedHeader>, count: int) -> Seq<int>
    decreases count,
{
    if count <= 0 {
        seq![]
    } else if offered[count - 1].name is Some && offered[count - 1].value is Some {
        complete_positions(offered, count - 1).push(count - 1)
    } else {
        complete_positions(offered, count - 1)
    }
}

proof fn complete_positions_fit(offered: Seq<OfferedHeader>, count: int)
    requires
        0 <= count <= offered.len(),
    ensures
        ({
            let picks = complete_positions(offered, count);
            let headers = complete_headers(offered, count);
            &&& picks.len() == headers.len()
            &&& forall|k: int|
                0 <= k < picks.len() ==> 0 <= #[trigger] picks[k] < count && (
                offered[picks[k]].name matches Some(name) && name@ == headers[k].name) && (
                offered[picks[k]].value matches Some(value) && value@ == headers[k].value)
            &&& forall|k: int, l: int|
                0 <= k < l < picks.len() ==> #[trigger] picks[k] < #[trigger] picks[l]
            &&& forall|i: int|
                0 <= i < count && (#[trigger] offered[i]).name is Some && offered[i].value is Some
                    ==> picks.contains(i)
        }),
    decreases count,
{
    if count > 0 {
        complete_positions_fit(offered, count - 1);
        let before = complete_positions(offered, count - 1);
        let picks = complete_positions(offered, count);
        assert forall|i: int|
            0 <= i < count && (#[trigger] offered[i]).name is Some && offered[i].value
                is Some implies picks.contains(i) by {
            if i < count - 1 {
                assert(before.contains(i));
                let k = choose|k: int| 0 <= k < before.len() && before[k] == i;
                assert(picks[k] == i);
            } else {
                assert(picks[picks.len() - 1] == i);
            }
        }
    }
}

proof fn complete_headers_are_sent(offered: Seq<OfferedHeader>)
    ensures
        sends_what_is_offered(offered, complete_headers(offered, offered.len() as int)),
{
    complete_positions_fit(offered, offered.len() as int);
    assert(are_the_complete_headers(
        offered,
        complete_positions(offered, offered.len() as int),
        complete_headers(offered, offered.len() as int),
    ));
}

/// Whether an address is that of a path on a host: encrypted, unless it was said that it is not.
pub open spec fn is_address(
    url: Seq<char>,
    use_https: Option<bool>,
    host: Seq<char>,
    path: Seq<char>,
) -> bool {
    &&& use_https != Some(false) ==> url == "https://"@ + host + path
    &&& use_https == Some(false) ==> url == "http://"@ + host + path
}

proof fn transfers_have_addresses(use_https: Option<bool>, host: Seq<char>, path: Seq<char>)
    ensures
        is_address(transfer_url(use_https, host, path), use_https, host, path),
{
    reveal_strlit("http");
    reveal_strlit("https");
    reveal_strlit("://");
    reveal_strlit("http://");
    reveal_strlit("https://");
    assert("https"@ + "://"@ =~= "https://"@);
    assert("http"@ + "://"@ =~= "http://"@);
}

/// How a part of an upload is sent: to the address that Steam named, with all headers that Steam
/// offered in full, and with the body that Steam gave or else the bytes of the save that it asked
/// for. A part is refused only where an address is missing or where it asks for bytes that the
/// save does not have.
pub proof fn parts_are_sent_as_asked(block: BlockRequest, bytes: Seq<u8>)
    requires
        bytes.len() <= u64::MAX,
    ensures
        ({
            let given = block.explicit_body_data matches Some(data) && data@.len() > 0;
            let from = match block.block_offset {
                Some(offset) => offset as int,
                None => 0,
            };
            let size = match block.block_length {
                Some(length) => length as int,
                None => 0,
            };
            match planned_block(block, bytes) {
                Ok(plan) => {
                    &&& block.url_host is Some && block.url_path is Some
                    &&& is_address(
                        plan.url,
                        block.use_https,
                        block.url_host.unwrap()@,
                        block.url_path.unwrap()@,
                    )
                    &&& sends_what_is_offered(block.request_headers@, plan.headers)
                    &&& given ==> plan.body == block.explicit_body_data.unwrap()@
                    &&& !given ==> from + size <= bytes.len() && plan.body.len() == size
                        && forall|i: int| 0 <= i < size ==> #[trigger] plan.body[i] == bytes[from + i]
                },
                Err(error) => {
                    ||| error == CloudError::UploadHostMissing && block.url_host is None
                    ||| error == CloudError::UploadPathMissing && block.url_host is Some
                        && block.url_path is None
                    ||| block.url_host is Some && block.url_path is Some && !given && from + size
                        > bytes.len() && (error == CloudError::BlockOverflow && from + size
                        > u64::MAX || error == CloudError::BlockOutside && from + size <= u64::MAX)
                },
            }
        }),
{
    complete_headers_are_sent(block.request_headers@);
    if let (Some(host), Some(path)) = (block.url_host, block.url_path) {
        transfers_have_addresses(block.use_https, host@, path@);
    }
}

/// How a file is downloaded: from the address that Steam named, with all headers that Steam
/// offered in full. It is refused only where it was deleted or is encrypted, where an address or
/// the size is missing, or where it is larger than 32 MiB.
pub proof fn downloads_are_asked_for_as_offered(info: DownloadInfo)
    ensures
        match planned_download(info) {
            Ok(plan) => {
                &&& info.is_explicit_delete != Some(true) && info.encrypted != Some(true)
                &&& info.url_host is Some && info.url_path is Some
                &&& is_address(
                    plan.url,
                    info.use_https,
                    info.url_host.unwrap()@,
                    info.url_path.unwrap()@,
                )
                &&& sends_what_is_offered(info.request_headers@, plan.headers)
                &&& info.raw_file_size == Some(plan.raw_size as u32) && plan.raw_size <= 33_554_432
                &&& info.file_size is Some ==> info.file_size == Some(plan.file_size as u32)
                &&& info.file_size is None ==> plan.file_size == plan.raw_size
                &&& plan.file_size <= 33_554_432
            },
            Err(error) => {
                let deleted = info.is_explicit_delete == Some(true);
                let encrypted = info.encrypted == Some(true);
                ||| error == CloudError::ExplicitDelete && deleted
                ||| error == CloudError::Encrypted && !deleted && encrypted
                ||| error == CloudError::DownloadHostMissing && !deleted && !encrypted
                    && info.url_host is None
                ||| error == CloudError::DownloadPathMissing && !deleted && !encrypted
                    && info.url_host is Some && info.url_path is None
                ||| error == CloudError::RawSizeMissing && !deleted && !encrypted
                    && info.url_host is Some && info.url_path is Some && info.raw_file_size is None
                ||| error == CloudError::TransferLimit && !deleted && !encrypted
                    && info.url_host is Some && info.url_path is Some && (
                info.raw_file_size matches Some(size) && (size > 33_554_432 || (
                info.file_size matches Some(packed) && packed > 33_554_432)))
            },
        },
{
    complete_headers_are_sent(info.request_headers@);
    if let (Some(host), Some(path)) = (info.url_host, info.url_path) {
        transfers_have_addresses(info.use_https, host@, path@);
    }
}

/// A response counts as the save exactly where its bytes, unpacked if they came in another size
/// than the save has, have the announced size and the SHA-1 that came with the address, or else
/// the listed one.
pub proof fn downloads_are_what_was_announced(
    body: Seq<u8>,
    raw_size: usize,
    file_size: usize,
    announced: Option<Seq<u8>>,
    listed: Option<Seq<u8>>,
    bytes: Seq<u8>,
)
    ensures
        accepted_download(body, raw_size, file_size, expected_sha(announced, listed)) == Ok::<
            Seq<u8>,
            DownloadFailure,
        >(bytes) <==> {
            &&& body.len() <= 33_554_432
            &&& file_size == raw_size ==> bytes == body
            &&& file_size != raw_size ==> unpacked(body, raw_size) == Ok::<
                Seq<u8>,
                DownloadFailure,
            >(bytes)
            &&& bytes.len() == raw_size
            &&& announced matches Some(sha) ==> sha1_of(bytes) == sha
            &&& announced is None ==> (listed matches Some(sha) ==> sha1_of(bytes) == sha)
        },
{
}

/// Whether a file is listed under this name and SHA-1.
pub open spec fn is_listed_as(file: CloudView, name: Seq<char>, sha: Seq<u8>) -> bool {
    file.request_name == name && file.save.identity.steam_sha1 == Some(hex_text(sha))
}

/// An upload is found in a list exactly where a file is listed under its name and its SHA-1, and
/// it is the first of those.
pub proof fn uploads_are_found_by_name_and_hash(
    files: Seq<CloudView>,
    name: Seq<char>,
    sha: Seq<u8>,
)
    ensures
        match first_upload(files, name, sha) {
            Some(file) => exists|i: int|
                0 <= i < files.len() && #[trigger] files[i] == file && is_listed_as(file, name, sha)
                    && forall|k: int| 0 <= k < i ==> !is_listed_as(#[trigger] files[k], name, sha),
            None => forall|k: int|
                0 <= k < files.len() ==> !is_listed_as(#[trigger] files[k], name, sha),
        },
    decreases files.len(),
{
    if files.len() > 0 {
        let rest = files.drop_first();
        uploads_are_found_by_name_and_hash(rest, name, sha);
        if is_upload(files[0], name, sha) {
            assert(files[0] == first_upload(files, name, sha).unwrap());
        } else {
            match first_upload(rest, name, sha) {
                Some(file) => {
                    let i = choose|i: int|
                        0 <= i < rest.len() && #[trigger] rest[i] == file && is_listed_as(
                            file,
                            name,
                            sha,
                        ) && forall|k: int|
                            0 <= k < i ==> !is_listed_as(#[trigger] rest[k], name, sha);
                    assert(files[i + 1] == file);
                    assert forall|k: int| 0 <= k < i + 1 implies !is_listed_as(
                        #[trigger] files[k],
                        name,
                        sha,
                    ) by {
                        if k > 0 {
                            assert(rest[k - 1] == files[k]);
                        }
                    }
                },
                None => {
                    assert forall|k: int| 0 <= k < files.len() implies !is_listed_as(
                        #[trigger] files[k],
                        name,
                        sha,
                    ) by {
                        if k > 0 {
                            assert(rest[k - 1] == files[k]);
                        }
                    }
                },
            }
        }
    }
}

/// Where an upload is when `sent` of its parts have been sent: at the next part, as long as it
/// can be sent, and behind the last one before the commit.
pub open spec fn is_at_part(
    upload: UploadProgress,
    batch_id: u64,
    blocks: Seq<BlockRequest>,
    sent: int,
    stage: StageView,
) -> bool {
    &&& sent >= blocks.len() ==> stage == (StageView::CommitNext { batch_id, transferred: true })
    &&& sent < blocks.len() && planned_block(blocks[sent], upload.bytes) is Ok ==> stage == (
    StageView::Sending { batch_id, blocks, sent })
    &&& sent < blocks.len() ==> (planned_block(blocks[sent], upload.bytes) matches Err(error)
        ==> stage == (StageView::CompleteNext {
        batch_id,
        failure: Some(UploadFailure::Cloud(error)),
    }))
}

/// Good answers lead an upload on: a batch to its file, the file to its parts in their order, the
/// last part to the commit, the commit to the end of the batch, and that to the list in which the
/// upload is looked for.
pub proof fn good_answers_lead_to_the_list(upload: UploadProgress, event: UploadEvent)
    ensures
        match (upload.stage, event) {
            (StageView::BatchNext, UploadEvent::BatchBegun(Some(id))) => next_stage(upload, event)
                == (StageView::FileNext { batch_id: id }),
            (
                StageView::FileNext { batch_id },
                UploadEvent::FileBegun { encrypt_file, blocks },
            ) => encrypt_file != Some(true) ==> is_at_part(
                upload,
                batch_id,
                blocks@,
                0,
                next_stage(upload, event),
            ),
            (StageView::Sending { batch_id, blocks, sent }, UploadEvent::PartSent(ok)) => ok
                ==> is_at_part(upload, batch_id, blocks, sent + 1, next_stage(upload, event)),
            (StageView::CommitNext { batch_id, transferred }, UploadEvent::Committed(committed)) =>
            transferred && committed == Some(true) ==> next_stage(upload, event) == (
            StageView::CompleteNext { batch_id, failure: None }),
            (StageView::CompleteNext { failure, .. }, UploadEvent::Completed) => failure is None
                ==> next_stage(upload, event) is ListNext,
            (StageView::ListNext, UploadEvent::Listed(files)) => (exists|i: int|
                0 <= i < files@.len() && is_listed_as(
                    (#[trigger] files@[i])@,
                    upload.remote_name,
                    sha1_of(upload.bytes),
                )) ==> next_stage(upload, event) is Verified,
            _ => true,
        },
{
    if let (StageView::ListNext, UploadEvent::Listed(files)) = (upload.stage, event) {
        let all = views(files@);
        uploads_are_found_by_name_and_hash(all, upload.remote_name, sha1_of(upload.bytes));
        if exists|i: int|
            0 <= i < files@.len() && is_listed_as(
                (#[trigger] files@[i])@,
                upload.remote_name,
                sha1_of(upload.bytes),
            ) {
            let i = choose|i: int|
                0 <= i < files@.len() && is_listed_as(
                    (#[trigger] files@[i])@,
                    upload.remote_name,
                    sha1_of(upload.bytes),
                );
            assert(all[i] == files@[i]@);
        }
    }
}

/// Bad answers end an upload without success: a part that was not sent is told to Steam with the
/// commit, a batch that was begun is completed as failed, and what comes out is a failure.
pub proof fn bad_answers_end_in_failure(upload: UploadProgress, event: UploadEvent)
    ensures
        match (upload.stage, event) {
            (StageView::BatchNext, UploadEvent::BatchBegun(None)) => next_stage(upload, event)
                is Failed,
            (StageView::BatchNext, UploadEvent::CallFailed) => next_stage(upload, event) is Failed,
            (StageView::FileNext { batch_id }, UploadEvent::FileBegun { encrypt_file, .. }) =>
            encrypt_file == Some(true) ==> (next_stage(
                upload,
                event,
            ) matches StageView::CompleteNext { batch_id: id, failure } && id == batch_id
                && failure is Some),
            (StageView::Sending { batch_id, .. }, UploadEvent::PartSent(ok)) => !ok ==> next_stage(
                upload,
                event,
            ) == (StageView::CommitNext { batch_id, transferred: false }),
            (StageView::CommitNext { batch_id, transferred }, UploadEvent::Committed(committed)) =>
            !(transferred && committed == Some(true)) ==> (next_stage(
                upload,
                event,
            ) matches StageView::CompleteNext { batch_id: id, failure } && id == batch_id
                && failure is Some),
            (StageView::FileNext { batch_id }, UploadEvent::CallFailed) => next_stage(
                upload,
                event,
            ) == (StageView::CompleteNext { batch_id, failure: Some(UploadFailure::Call) }),
            (StageView::CommitNext { batch_id, .. }, UploadEvent::CallFailed) => next_stage(
                upload,
                event,
            ) == (StageView::CompleteNext { batch_id, failure: Some(UploadFailure::Call) }),
            (StageView::CompleteNext { failure, .. }, UploadEvent::Completed) => failure is Some
                ==> next_stage(upload, event) == StageView::Failed(failure.unwrap()),
            (StageView::CompleteNext { failure, .. }, UploadEvent::CallFailed) => match failure {
                Some(failure) => next_stage(upload, event) == StageView::Failed(failure),
                None => next_stage(upload, event) == StageView::Failed(UploadFailure::Completion),
            },
            (StageView::ListNext, UploadEvent::CallFailed) => next_stage(upload, event)
                == StageView::Failed(UploadFailure::Call),
            (StageView::ListNext, UploadEvent::Listed(files)) => (forall|i: int|
                0 <= i < files@.len() ==> !is_listed_as(
                    (#[trigger] files@[i])@,
                    upload.remote_name,
                    sha1_of(upload.bytes),
                )) ==> next_stage(upload, event) == StageView::Failed(
                UploadFailure::Cloud(CloudError::NotVerifiable),
            ),
            _ => true,
        },
{
    if let (StageView::ListNext, UploadEvent::Listed(files)) = (upload.stage, event) {
        let all = views(files@);
        uploads_are_found_by_name_and_hash(all, upload.remote_name, sha1_of(upload.bytes));
        if let Some(file) = first_upload(all, upload.remote_name, sha1_of(upload.bytes)) {
            let i = choose|i: int|
                0 <= i < all.len() && #[trigger] all[i] == file && is_listed_as(
                    file,
                    upload.remote_name,
                    sha1_of(upload.bytes),
                );
            assert(all[i] == files@[i]@);
        }
    }
}

/// What an upload asks Steam for: a batch for its name; the file with its size and its SHA-1; its
/// parts, each as Steam asked for it; the commit, which tells whether all parts were sent; and the
/// end of the batch, which tells whether it succeeded.
pub proof fn uploads_ask_for_what_is_next(upload: UploadProgress, action: UploadAction)
    requires
        is_next_action(upload, action),
    ensures
        match (upload.stage, action) {
            (StageView::BatchNext, UploadAction::BeginBatch(request)) => request.appid == 250_900
                && request.file_to_upload@ == upload.remote_name && request.machine_name@
                == "IsaacCloudSync iPhone"@ && request.app_build_id == 0,
            (StageView::FileNext { batch_id }, UploadAction::BeginFile(request)) => {
                &&& request.appid == 250_900 && request.upload_batch_id == batch_id
                &&& request.filename@ == upload.remote_name
                &&& request.file_size == upload.bytes.len()
                &&& request.raw_file_size == upload.bytes.len()
                &&& request.file_sha@ == sha1_of(upload.bytes)
                &&& request.platforms_to_sync == 0xffff_ffff && request.cell_id == 0
                &&& !request.can_encrypt && !request.is_shared_file
                &&& request.deprecated_realm == 1
            },
            (StageView::Sending { blocks, sent, .. }, UploadAction::Send(plan)) => planned_block(
                blocks[sent],
                upload.bytes,
            ) == Ok::<BlockView, CloudError>(plan@),
            (StageView::CommitNext { transferred, .. }, UploadAction::Commit(request)) => {
                &&& request.transfer_succeeded == transferred && request.appid == 250_900
                &&& request.filename@ == upload.remote_name
                &&& request.file_sha@ == sha1_of(upload.bytes)
            },
            (StageView::CompleteNext { batch_id, failure }, UploadAction::Complete(request)) => {
                &&& request.appid == 250_900 && request.batch_id == batch_id
                &&& failure is None ==> request.batch_eresult == 1
                &&& failure is Some ==> request.batch_eresult == 2
            },
            (StageView::ListNext, UploadAction::List) => true,
            (StageView::Verified(file), UploadAction::Verified(verified)) => verified@ == file,
            (StageView::Failed(failure), UploadAction::Failed(failed)) => failed == failure,
            _ => false,
        },
{
}

/// A request succeeded where Steam says 1 or nothing, and otherwise what Steam says is told.
pub proof fn requests_succeed_with_one(target: Seq<char>, value: i32)
    ensures
        rpc_outcome(None) == Ok::<(), i32>(()),
        rpc_outcome(Some(1)) == Ok::<(), i32>(()),
        value != 1 ==> rpc_outcome(Some(value)) == Err::<(), i32>(value),
        rpc_failure(target, value) == "Steam RPC "@ + target + " failed with EResult "@
            + signed_decimal(value as int),
{
}

/// All files of the game are asked for from the first change on, and each by the name under which
/// it is listed.
pub proof fn files_are_asked_for_by_name(request: DownloadRequest, file: CloudView)
    requires
        is_request_for(request, file),
    ensures
        full_list_request().appid == 250_900 && full_list_request().synced_change_number == 0,
        request.filename@ == file.request_name && request.appid == 250_900 && request.realm == 1
            && !request.force_proxy,
{
}

/// A response is read only where it announces at most 32 MiB or nothing.
pub proof fn announced_lengths_are_limited(length: u64)
    ensures
        length_outcome(None) is Ok,
        length <= 33_554_432 ==> length_outcome(Some(length)) is Ok,
        length > 33_554_432 ==> length_outcome(Some(length)) == Err::<(), CloudError>(
            CloudError::ResponseLimit,
        ),
{
}

/// What counts as the save of a file: the response, unpacked where it was announced in another
/// size than the save, in the announced size and with the SHA-1 that came with its address, or
/// else with the one that the file is listed with.
pub proof fn downloads_are_checked_against_their_file(
    body: Seq<u8>,
    plan: PlanView,
    info: DownloadInfo,
    file: CloudView,
    bytes: Seq<u8>,
)
    ensures
        downloaded_save(body, plan, info, file) == Ok::<Seq<u8>, DownloadFailure>(bytes) <==> {
            &&& body.len() <= 33_554_432
            &&& plan.file_size == plan.raw_size ==> bytes == body
            &&& plan.file_size != plan.raw_size ==> unpacked(body, plan.raw_size) == Ok::<
                Seq<u8>,
                DownloadFailure,
            >(bytes)
            &&& bytes.len() == plan.raw_size
            &&& info.sha_file matches Some(sha) ==> sha1_of(bytes) == sha@
            &&& info.sha_file is None ==> (file.raw.sha_file matches Some(sha) ==> sha1_of(bytes)
                == sha)
        },
{
}

/// An upload of at most 32 MiB begins with its batch, and a larger one does not begin.
pub proof fn uploads_begin_with_their_batch(name: Seq<char>, bytes: Seq<u8>)
    ensures
        bytes.len() <= 33_554_432 ==> (upload_begun(name, bytes) matches Ok(upload)
            && upload.remote_name == name && upload.bytes == bytes && upload.stage is BatchNext),
        bytes.len() > 33_554_432 ==> upload_begun(name, bytes) == Err::<UploadProgress, CloudError>(
            CloudError::UploadLimit,
        ),
{
}

} // verus!
