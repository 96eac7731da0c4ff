//! Exchanging a save with Steam Cloud: what is asked of Steam, and what of its answers is
//! accepted.
use vstd::prelude::*;

use crate::archive::{
    download_result, unpack_single_zip_entry, unpacked, DownloadError, DownloadFailure,
};
use crate::bytes::{same_bytes, to_vec};
use crate::clock::unix_ms;
use crate::cloud::{optional_bytes, CloudError, CloudFile, CloudView};
use crate::digest::{hex_encode, hex_text, sha1_digest, sha1_of};
use crate::ids::{client_id, is_random_id, random_client_id};
use crate::model::STEAM_APP_ID;
use crate::order::views;
use crate::text::{same_text, signed_decimal, to_signed_decimal};

verus! {

/// How long a request to Steam may take.
pub const RPC_TIMEOUT_SECS: u64 = 20;

/// How long a transfer may take.
pub const TRANSFER_TIMEOUT_SECS: u64 = 45;

/// The largest save that is transferred.
pub const MAX_SAVE_TRANSFER_SIZE: usize = 33_554_432;

/// The largest save that is transferred, as the sizes of messages are written.
pub const MAX_TRANSFER: u32 = 33_554_432;

/// A header of an HTTP request.
#[derive(Debug)]
pub struct Header {
    pub name: String,
    pub value: String,
}

/// What a `Header` holds.
pub struct HeaderView {
    pub name: Seq<char>,
    pub value: Seq<char>,
}

impl View for Header {
    type V = HeaderView;

    open spec fn view(&self) -> HeaderView {
        HeaderView { name: self.name@, value: self.value@ }
    }
}

/// A header as Steam gives it.
#[derive(Debug)]
pub struct OfferedHeader {
    pub name: Option<String>,
    pub value: Option<String>,
}

/// The headers among the first `count` that have both a name and a value.
pub open spec fn complete_headers(offered: Seq<OfferedHeader>, count: int) -> Seq<HeaderView>
    decreases count,
{
    if count <= 0 {
        seq![]
    } else {
        match (offered[count - 1].name, offered[count - 1].value) {
            (Some(name), Some(value)) => complete_headers(offered, count - 1).push(
                HeaderView { name: name@, value: value@ },
            ),
            _ => complete_headers(offered, count - 1),
        }
    }
}

/// The headers that have both a name and a value.
fn headers_of(offered: &Vec<OfferedHeader>) -> (headers: Vec<Header>)
    ensures
        views(headers@) == complete_headers(offered@, offered@.len() as int),
{
    let mut headers: Vec<Header> = Vec::new();
    let mut i: usize = 0;
    assert(views(headers@) =~= Seq::<HeaderView>::empty());
    while i < offered.len()
        invariant
            i <= offered@.len(),
            views(headers@) == complete_headers(offered@, i as int),
        decreases offered@.len() - i,
    {
        let ghost held = headers@;
        if let (Some(name), Some(value)) = (&offered[i].name, &offered[i].value) {
            let header: Header = Header { name: name.clone(), value: value.clone() };
            let ghost view = header@;
            headers.push(header);
            assert(views(headers@) =~= views(held).push(view));
        }
        i += 1;
    }
    headers
}

/// The address of a transfer. It is encrypted unless Steam says otherwise.
pub open spec fn transfer_url(use_https: Option<bool>, host: Seq<char>, path: Seq<char>) -> Seq<
    char,
> {
    (if use_https == Some(false) {
        "http"@
    } else {
        "https"@
    }) + "://"@ + host + path
}

/// The address of a transfer.
fn url_of(use_https: Option<bool>, host: &str, path: &str) -> (url: String)
    ensures
        url@ == transfer_url(use_https, host@, path@),
{
    let https: bool = match use_https {
        Some(https) => https,
        None => true,
    };
    let mut url: String = if https {
        "https".to_owned()
    } else {
        "http".to_owned()
    };
    url.append("://");
    url.append(host);
    url.append(path);
    url
}

/// What the result that Steam gave of a request comes to: 1 or none is success, and any other is
/// returned.
pub open spec fn rpc_outcome(eresult: Option<i32>) -> Result<(), i32> {
    match eresult {
        Some(value) => if value == 1 {
            Ok(())
        } else {
            Err(value)
        },
        None => Ok(()),
    }
}

/// Checks the result that Steam gave of a request.
pub fn check_rpc(eresult: Option<i32>) -> (result: Result<(), i32>)
    ensures
        result == rpc_outcome(eresult),
{
    match eresult {
        Some(value) => if value != 1 {
            Err(value)
        } else {
            Ok(())
        },
        None => Ok(()),
    }
}

/// The message for a request that Steam answered with `eresult`.
pub open spec fn rpc_failure(target: Seq<char>, eresult: i32) -> Seq<char> {
    "Steam RPC "@ + target + " failed with EResult "@ + signed_decimal(eresult as int)
}

/// The message for a request that Steam answered with `eresult`.
pub fn rpc_failure_message(target: &str, eresult: i32) -> (message: String)
    ensures
        message@ == rpc_failure(target@, eresult),
{
    let mut message: String = "Steam RPC ".to_owned();
    message.append(target);
    message.append(" failed with EResult ");
    message.append(to_signed_decimal(eresult).as_str());
    message
}

/// A request for all files of the application.
#[derive(Debug, Clone, Copy, PartialEq, Eq, Structural)]
pub struct ChangelistRequest {
    pub appid: u32,
    pub synced_change_number: u64,
}

/// The request for all files of the application, whatever was listed before.
pub open spec fn full_list_request() -> ChangelistRequest {
    ChangelistRequest { appid: STEAM_APP_ID, synced_change_number: 0 }
}

/// The request for all files of the application, whatever was listed before.
pub fn changelist_request() -> (request: ChangelistRequest)
    ensures
        request == full_list_request(),
{
    ChangelistRequest { appid: STEAM_APP_ID, synced_change_number: 0 }
}

/// A request for the address of a file.
#[derive(Debug)]
pub struct DownloadRequest {
    pub appid: u32,
    pub filename: String,
    pub realm: u32,
    pub force_proxy: bool,
}

/// Whether a request is that for the address of `file`.
pub open spec fn is_request_for(request: DownloadRequest, file: CloudView) -> bool {
    &&& request.appid == STEAM_APP_ID
    &&& request.filename@ == file.request_name
    &&& request.realm == 1
    &&& !request.force_proxy
}

/// The request for the address of `file`.
pub fn download_request(file: &CloudFile) -> (request: DownloadRequest)
    ensures
        is_request_for(request, file@),
{
    DownloadRequest {
        appid: STEAM_APP_ID,
        filename: file.request_name.clone(),
        realm: 1,
        force_proxy: false,
    }
}

/// Where Steam says a file is to be had.
#[derive(Debug)]
pub struct DownloadInfo {
    pub is_explicit_delete: Option<bool>,
    pub encrypted: Option<bool>,
    pub url_host: Option<String>,
    pub url_path: Option<String>,
    pub use_https: Option<bool>,
    pub raw_file_size: Option<u32>,
    pub file_size: Option<u32>,
    pub request_headers: Vec<OfferedHeader>,
    pub sha_file: Option<Vec<u8>>,
}

/// How a file is downloaded.
#[derive(Debug)]
pub struct DownloadPlan {
    pub url: String,
    pub headers: Vec<Header>,
    /// The size of the save.
    pub raw_size: usize,
    /// The size of what is transferred.
    pub file_size: usize,
}

/// What a `DownloadPlan` holds.
pub struct PlanView {
    pub url: Seq<char>,
    pub headers: Seq<HeaderView>,
    pub raw_size: usize,
    pub file_size: usize,
}

impl View for DownloadPlan {
    type V = PlanView;

    open spec fn view(&self) -> PlanView {
        PlanView {
            url: self.url@,
            headers: views(self.headers@),
            raw_size: self.raw_size,
            file_size: self.file_size,
        }
    }
}

/// How the file that Steam describes is downloaded, or why it is not. Without a size of what
/// is transferred it is the save itself.
pub open spec fn planned_download(info: DownloadInfo) -> Result<PlanView, CloudError> {
    if info.is_explicit_delete == Some(true) {
        Err(CloudError::ExplicitDelete)
    } else if info.encrypted == Some(true) {
        Err(CloudError::Encrypted)
    } else {
        match (info.url_host, info.url_path, info.raw_file_size) {
            (None, _, _) => Err(CloudError::DownloadHostMissing),
            (_, None, _) => Err(CloudError::DownloadPathMissing),
            (_, _, None) => Err(CloudError::RawSizeMissing),
            (Some(host), Some(path), Some(raw_size)) => {
                let file_size = match info.file_size {
                    Some(size) => size,
                    None => raw_size,
                };
                if raw_size > MAX_TRANSFER || file_size > MAX_TRANSFER {
                    Err(CloudError::TransferLimit)
                } else {
                    Ok(
                        PlanView {
                            url: transfer_url(info.use_https, host@, path@),
                            headers: complete_headers(
                                info.request_headers@,
                                info.request_headers@.len() as int,
                            ),
                            raw_size: raw_size as usize,
                            file_size: file_size as usize,
                        },
                    )
                }
            },
        }
    }
}

/// What is true only where it is said.
fn said(flag: Option<bool>) -> (yes: bool)
    ensures
        yes == (flag == Some(true)),
{
    match flag {
        Some(flag) => flag,
        None => false,
    }
}

/// How the file that Steam describes is downloaded.
pub fn download_plan(info: &DownloadInfo) -> (result: Result<DownloadPlan, CloudError>)
    ensures
        match result {
            Ok(plan) => planned_download(*info) == Ok::<PlanView, CloudError>(plan@),
            Err(error) => planned_download(*info) == Err::<PlanView, CloudError>(error),
        },
{
    if said(info.is_explicit_delete) {
        return Err(CloudError::ExplicitDelete);
    }
    if said(info.encrypted) {
        return Err(CloudError::Encrypted);
    }
    let host: &String = match &info.url_host {
        Some(host) => host,
        None => return Err(CloudError::DownloadHostMissing),
    };
    let path: &String = match &info.url_path {
        Some(path) => path,
        None => return Err(CloudError::DownloadPathMissing),
    };
    let raw_size: u32 = match info.raw_file_size {
        Some(size) => size,
        None => return Err(CloudError::RawSizeMissing),
    };
    let file_size: u32 = match info.file_size {
        Some(size) => size,
        None => raw_size,
    };
    if raw_size > MAX_TRANSFER || file_size > MAX_TRANSFER {
        return Err(CloudError::TransferLimit);
    }
    Ok(
        DownloadPlan {
            url: url_of(info.use_https, host.as_str(), path.as_str()),
            headers: headers_of(&info.request_headers),
            raw_size: raw_size as usize,
            file_size: file_size as usize,
        },
    )
}

/// What the announced length of a response comes to.
pub open spec fn length_outcome(content_length: Option<u64>) -> Result<(), CloudError> {
    if content_length matches Some(length) && length > MAX_SAVE_TRANSFER_SIZE {
        Err(CloudError::ResponseLimit)
    } else {
        Ok(())
    }
}

/// Checks the announced length of a response ahead of reading it.
pub fn check_content_length(content_length: Option<u64>) -> (result: Result<(), CloudError>)
    ensures
        result == length_outcome(content_length),
{
    match content_length {
        Some(length) => if length > MAX_SAVE_TRANSFER_SIZE as u64 {
            Err(CloudError::ResponseLimit)
        } else {
            Ok(())
        },
        None => Ok(()),
    }
}

/// The SHA-1 that a download must have: the one that came with its address, or else the
/// listed one.
pub open spec fn expected_sha(info: Option<Seq<u8>>, listed: Option<Seq<u8>>) -> Option<Seq<u8>> {
    match info {
        Some(sha) => Some(sha),
        None => listed,
    }
}

/// What is made of the bytes of a save: they count only in the announced size and with the
/// expected hash.
pub open spec fn verified_download(bytes: Seq<u8>, raw_size: usize, expected: Option<Seq<u8>>) -> Result<
    Seq<u8>,
    DownloadFailure,
> {
    if bytes.len() != raw_size {
        Err(
            DownloadFailure::Cloud(
                CloudError::SizeMismatch { actual: bytes.len() as usize, expected: raw_size },
            ),
        )
    } else if expected matches Some(sha) && sha1_of(bytes) != sha {
        Err(DownloadFailure::Cloud(CloudError::ShaMismatch))
    } else {
        Ok(bytes)
    }
}

/// What is made of the body of a response. A body of another size than the save is an archive.
pub open spec fn accepted_download(
    body: Seq<u8>,
    raw_size: usize,
    file_size: usize,
    expected: Option<Seq<u8>>,
) -> Result<Seq<u8>, DownloadFailure> {
    if body.len() > MAX_SAVE_TRANSFER_SIZE {
        Err(DownloadFailure::Cloud(CloudError::ResponseLimit))
    } else if file_size != raw_size {
        match unpacked(body, raw_size) {
            Ok(bytes) => verified_download(bytes, raw_size, expected),
            Err(error) => Err(error),
        }
    } else {
        verified_download(body, raw_size, expected)
    }
}

/// Checks the bytes of a save against its announced size and, where there is one, its hash.
pub fn verify_download(bytes: Vec<u8>, raw_size: usize, expected: Option<&Vec<u8>>) -> (result: Result<
    Vec<u8>,
    DownloadError,
>)
    ensures
        download_result(result) == verified_download(
            bytes@,
            raw_size,
            match expected {
                Some(sha) => Some(sha@),
                None => None,
            },
        ),
{
    if bytes.len() != raw_size {
        return Err(
            DownloadError::Cloud(
                CloudError::SizeMismatch { actual: bytes.len(), expected: raw_size },
            ),
        );
    }
    if let Some(sha) = expected {
        let actual: Vec<u8> = sha1_digest(&bytes);
        if !same_bytes(&actual, sha) {
            return Err(DownloadError::Cloud(CloudError::ShaMismatch));
        }
    }
    Ok(bytes)
}

/// What is made of the body of the response to a planned download of `file`.
pub open spec fn downloaded_save(
    body: Seq<u8>,
    plan: PlanView,
    info: DownloadInfo,
    file: CloudView,
) -> Result<Seq<u8>, DownloadFailure> {
    accepted_download(
        body,
        plan.raw_size,
        plan.file_size,
        expected_sha(optional_bytes(info.sha_file), file.raw.sha_file),
    )
}

/// What is made of the body of the response to a planned download of `file`.
pub fn download(body: Vec<u8>, plan: &DownloadPlan, info: &DownloadInfo, file: &CloudFile) -> (result:
    Result<Vec<u8>, DownloadError>)
    ensures
        download_result(result) == downloaded_save(body@, plan@, *info, file@),
{
    if body.len() > MAX_SAVE_TRANSFER_SIZE {
        return Err(DownloadError::Cloud(CloudError::ResponseLimit));
    }
    let bytes: Vec<u8> = if plan.file_size != plan.raw_size {
        match unpack_single_zip_entry(&body, plan.raw_size) {
            Ok(bytes) => bytes,
            Err(error) => return Err(error),
        }
    } else {
        body
    };
    let expected: Option<&Vec<u8>> = match &info.sha_file {
        Some(sha) => Some(sha),
        None => match &file.raw.sha_file {
            Some(sha) => Some(sha),
            None => None,
        },
    };
    verify_download(bytes, plan.raw_size, expected)
}

/// An accepted download has the size that Steam announced and the hash that Steam gave.
pub proof fn accepted_download_is_verified(
    body: Seq<u8>,
    raw_size: usize,
    file_size: usize,
    expected: Option<Seq<u8>>,
)
    ensures
        accepted_download(body, raw_size, file_size, expected) matches Ok(bytes) ==> {
            &&& bytes.len() == raw_size
            &&& expected matches Some(sha) ==> sha1_of(bytes) == sha
            &&& file_size == raw_size ==> bytes == body
        },
{
}

/// The SHA-1 of a save that is to be uploaded, unless it is too large.
pub fn upload_digest(bytes: &[u8]) -> (result: Result<Vec<u8>, CloudError>)
    ensures
        match result {
            Ok(sha) => bytes@.len() <= MAX_SAVE_TRANSFER_SIZE && sha@ == sha1_of(bytes@)
                && sha@.len() == 20,
            Err(error) => bytes@.len() > MAX_SAVE_TRANSFER_SIZE && error == CloudError::UploadLimit,
        },
{
    if bytes.len() > MAX_SAVE_TRANSFER_SIZE {
        return Err(CloudError::UploadLimit);
    }
    Ok(sha1_digest(bytes))
}

/// A request to begin an upload batch.
#[derive(Debug)]
pub struct BatchRequest {
    pub appid: u32,
    pub machine_name: String,
    pub file_to_upload: String,
    pub client_id: u64,
    pub app_build_id: u64,
}

/// The request to begin a batch that uploads one file and deletes none.
pub fn batch_request(remote_name: &str) -> (request: BatchRequest)
    ensures
        request.appid == STEAM_APP_ID,
        request.machine_name@ == "IsaacCloudSync iPhone"@,
        request.file_to_upload@ == remote_name@,
        exists|id: Seq<u8>| is_random_id(id) && request.client_id == #[trigger] client_id(id),
        request.app_build_id == 0,
{
    BatchRequest {
        appid: STEAM_APP_ID,
        machine_name: "IsaacCloudSync iPhone".to_owned(),
        file_to_upload: remote_name.to_owned(),
        client_id: random_client_id(),
        app_build_id: 0,
    }
}

/// The batch that Steam began.
pub fn batch_of(batch_id: Option<u64>) -> (result: Result<u64, CloudError>)
    ensures
        result == match batch_id {
            Some(id) => Ok::<u64, CloudError>(id),
            None => Err(CloudError::BatchIdMissing),
        },
{
    match batch_id {
        Some(id) => Ok(id),
        None => Err(CloudError::BatchIdMissing),
    }
}

/// A request to begin the upload of a file.
#[derive(Debug)]
pub struct UploadRequest {
    pub appid: u32,
    pub file_size: u32,
    pub raw_file_size: u32,
    pub file_sha: Vec<u8>,
    pub time_stamp: u64,
    pub filename: String,
    pub platforms_to_sync: u32,
    pub cell_id: u32,
    pub can_encrypt: bool,
    pub is_shared_file: bool,
    pub deprecated_realm: u32,
    pub upload_batch_id: u64,
}

/// The request to begin the upload of `bytes`, whose SHA-1 is `sha`, at the time `now` in
/// milliseconds.
pub fn upload_request_at(
    batch_id: u64,
    remote_name: &str,
    bytes: &[u8],
    sha: &[u8],
    now: u64,
) -> (request: UploadRequest)
    requires
        bytes@.len() <= MAX_SAVE_TRANSFER_SIZE,
    ensures
        request.appid == STEAM_APP_ID,
        request.file_size == bytes@.len(),
        request.raw_file_size == bytes@.len(),
        request.file_sha@ == sha@,
        request.time_stamp == now / 1000,
        request.filename@ == remote_name@,
        request.platforms_to_sync == u32::MAX,
        request.cell_id == 0,
        !request.can_encrypt,
        !request.is_shared_file,
        request.deprecated_realm == 1,
        request.upload_batch_id == batch_id,
{
    UploadRequest {
        appid: STEAM_APP_ID,
        file_size: bytes.len() as u32,
        raw_file_size: bytes.len() as u32,
        file_sha: to_vec(sha),
        time_stamp: now / 1000,
        filename: remote_name.to_owned(),
        platforms_to_sync: u32::MAX,
        cell_id: 0,
        can_encrypt: false,
        is_shared_file: false,
        deprecated_realm: 1,
        upload_batch_id: batch_id,
    }
}

/// The request to begin the upload of `bytes` now.
pub fn upload_request(batch_id: u64, remote_name: &str, bytes: &[u8], sha: &[u8]) -> (request:
    UploadRequest)
    requires
        bytes@.len() <= MAX_SAVE_TRANSFER_SIZE,
    ensures
        request.appid == STEAM_APP_ID,
        request.file_size == bytes@.len(),
        request.raw_file_size == bytes@.len(),
        request.file_sha@ == sha@,
        request.filename@ == remote_name@,
        request.platforms_to_sync == u32::MAX,
        request.cell_id == 0,
        !request.can_encrypt,
        !request.is_shared_file,
        request.deprecated_realm == 1,
        request.upload_batch_id == batch_id,
{
    upload_request_at(batch_id, remote_name, bytes, sha, unix_ms())
}

/// Checks that Steam takes the save as it is.
pub fn check_upload_begun(encrypt_file: Option<bool>) -> (result: Result<(), CloudError>)
    ensures
        result == if encrypt_file == Some(true) {
            Err::<(), CloudError>(CloudError::EncryptionRequested)
        } else {
            Ok(())
        },
{
    if said(encrypt_file) {
        return Err(CloudError::EncryptionRequested);
    }
    Ok(())
}

/// A part of an upload as Steam asks for it.
#[derive(Debug)]
pub struct BlockRequest {
    pub url_host: Option<String>,
    pub url_path: Option<String>,
    pub use_https: Option<bool>,
    pub block_offset: Option<u64>,
    pub block_length: Option<u32>,
    pub explicit_body_data: Option<Vec<u8>>,
    pub request_headers: Vec<OfferedHeader>,
}

/// How a part of an upload is sent.
#[derive(Debug)]
pub struct BlockPlan {
    pub url: String,
    pub headers: Vec<Header>,
    pub body: Vec<u8>,
}

/// What a `BlockPlan` holds.
pub struct BlockView {
    pub url: Seq<char>,
    pub headers: Seq<HeaderView>,
    pub body: Seq<u8>,
}

impl View for BlockPlan {
    type V = BlockView;

    open spec fn view(&self) -> BlockView {
        BlockView { url: self.url@, headers: views(self.headers@), body: self.body@ }
    }
}

/// The body of a part: the one that Steam gives, unless it is empty, or else a range of the
/// save.
pub open spec fn block_body(block: BlockRequest, bytes: Seq<u8>) -> Result<Seq<u8>, CloudError> {
    if block.explicit_body_data matches Some(data) && data@.len() > 0 {
        Ok(block.explicit_body_data.unwrap()@)
    } else {
        let offset = match block.block_offset {
            Some(offset) => offset as int,
            None => 0,
        };
        let length = match block.block_length {
            Some(length) => length as int,
            None => 0,
        };
        if offset + length > u64::MAX {
            Err(CloudError::BlockOverflow)
        } else if offset + length > bytes.len() {
            Err(CloudError::BlockOutside)
        } else {
            Ok(bytes.subrange(offset, offset + length))
        }
    }
}

/// How a part of the upload of `bytes` is sent, or why it is not.
pub open spec fn planned_block(block: BlockRequest, bytes: Seq<u8>) -> Result<
    BlockView,
    CloudError,
> {
    match (block.url_host, block.url_path) {
        (None, _) => Err(CloudError::UploadHostMissing),
        (_, None) => Err(CloudError::UploadPathMissing),
        (Some(host), Some(path)) => match block_body(block, bytes) {
            Err(error) => Err(error),
            Ok(body) => Ok(
                BlockView {
                    url: transfer_url(block.use_https, host@, path@),
                    headers: complete_headers(
                        block.request_headers@,
                        block.request_headers@.len() as int,
                    ),
                    body,
                },
            ),
        },
    }
}

/// The bytes of a result.
spec fn bytes_result(result: Result<Vec<u8>, CloudError>) -> Result<Seq<u8>, CloudError> {
    match result {
        Ok(bytes) => Ok(bytes@),
        Err(error) => Err(error),
    }
}

/// The body of a part.
fn body_of(block: &BlockRequest, bytes: &[u8]) -> (result: Result<Vec<u8>, CloudError>)
    ensures
        bytes_result(result) == block_body(*block, bytes@),
{
    if let Some(data) = &block.explicit_body_data {
        if data.len() > 0 {
            return Ok(to_vec(data));
        }
    }
    let offset: u64 = match block.block_offset {
        Some(offset) => offset,
        None => 0,
    };
    let length: u64 = match block.block_length {
        Some(length) => length as u64,
        None => 0,
    };
    let end: u64 = match offset.checked_add(length) {
        Some(end) => end,
        None => return Err(CloudError::BlockOverflow),
    };
    if end > bytes.len() as u64 {
        return Err(CloudError::BlockOutside);
    }
    let mut body: Vec<u8> = Vec::new();
    crate::bytes::push_range(&mut body, bytes, offset as usize, end as usize);
    assert(body@ =~= bytes@.subrange(offset as int, end as int));
    Ok(body)
}

/// How a part of the upload of `bytes` is sent.
pub fn block_plan(block: &BlockRequest, bytes: &[u8]) -> (result: Result<BlockPlan, CloudError>)
    ensures
        match result {
            Ok(plan) => planned_block(*block, bytes@) == Ok::<BlockView, CloudError>(plan@),
            Err(error) => planned_block(*block, bytes@) == Err::<BlockView, CloudError>(error),
        },
{
    let host: &String = match &block.url_host {
        Some(host) => host,
        None => return Err(CloudError::UploadHostMissing),
    };
    let path: &String = match &block.url_path {
        Some(path) => path,
        None => return Err(CloudError::UploadPathMissing),
    };
    let body: Vec<u8> = match body_of(block, bytes) {
        Ok(body) => body,
        Err(error) => return Err(error),
    };
    Ok(
        BlockPlan {
            url: url_of(block.use_https, host.as_str(), path.as_str()),
            headers: headers_of(&block.request_headers),
            body,
        },
    )
}

/// A request to take an upload over.
#[derive(Debug)]
pub struct CommitRequest {
    pub transfer_succeeded: bool,
    pub appid: u32,
    pub file_sha: Vec<u8>,
    pub filename: String,
}

/// The request to take the upload over, or to give it up where a part was not sent.
pub fn commit_request(transferred: bool, remote_name: &str, sha: &[u8]) -> (request: CommitRequest)
    ensures
        request.transfer_succeeded == transferred,
        request.appid == STEAM_APP_ID,
        request.file_sha@ == sha@,
        request.filename@ == remote_name@,
{
    CommitRequest {
        transfer_succeeded: transferred,
        appid: STEAM_APP_ID,
        file_sha: to_vec(sha),
        filename: remote_name.to_owned(),
    }
}

/// Checks that every part was sent and Steam took the upload over.
pub fn check_committed(transferred: bool, file_committed: Option<bool>) -> (result: Result<
    (),
    CloudError,
>)
    ensures
        result == if transferred && file_committed == Some(true) {
            Ok::<(), CloudError>(())
        } else {
            Err(CloudError::NotCommitted)
        },
{
    if !transferred || !said(file_committed) {
        return Err(CloudError::NotCommitted);
    }
    Ok(())
}

/// A request to complete an upload batch.
#[derive(Debug, Clone, Copy, PartialEq, Eq, Structural)]
pub struct CompleteRequest {
    pub appid: u32,
    pub batch_id: u64,
    /// 1 for success, 2 for failure.
    pub batch_eresult: u32,
}

/// The request to complete a batch.
pub fn complete_request(batch_id: u64, transfer_ok: bool) -> (request: CompleteRequest)
    ensures
        request == (CompleteRequest {
            appid: STEAM_APP_ID,
            batch_id,
            batch_eresult: if transfer_ok {
                1
            } else {
                2
            },
        }),
{
    CompleteRequest {
        appid: STEAM_APP_ID,
        batch_id,
        batch_eresult: if transfer_ok {
            1
        } else {
            2
        },
    }
}

/// Whether a listed file is the upload with the given name and SHA-1.
pub open spec fn is_upload(file: CloudView, remote_name: Seq<char>, sha: Seq<u8>) -> bool {
    file.request_name == remote_name && file.save.identity.steam_sha1 == Some(hex_text(sha))
}

/// The first file that has the name and the SHA-1 of the upload.
pub open spec fn first_upload(files: Seq<CloudView>, remote_name: Seq<char>, sha: Seq<u8>) -> Option<
    CloudView,
>
    decreases files.len(),
{
    if files.len() == 0 {
        None
    } else if is_upload(files[0], remote_name, sha) {
        Some(files[0])
    } else {
        first_upload(files.drop_first(), remote_name, sha)
    }
}

/// What is found is the upload, and it was listed.
pub proof fn found_upload_is_listed(files: Seq<CloudView>, remote_name: Seq<char>, sha: Seq<u8>)
    ensures
        match first_upload(files, remote_name, sha) {
            Some(file) => is_upload(file, remote_name, sha) && files.contains(file),
            None => forall|i: int|
                0 <= i < files.len() ==> !is_upload(#[trigger] files[i], remote_name, sha),
        },
    decreases files.len(),
{
    if files.len() > 0 && !is_upload(files[0], remote_name, sha) {
        let rest = files.drop_first();
        found_upload_is_listed(rest, remote_name, sha);
        assert forall|i: int| 0 < i < files.len() implies #[trigger] files[i] == rest[i - 1] by {}
        if let Some(file) = first_upload(rest, remote_name, sha) {
            let at = choose|at: int| 0 <= at < rest.len() && rest[at] == file;
            assert(files[at + 1] == file);
        }
    }
}

/// The upload in the list of files that was asked for behind it: the first file that has its
/// name and its SHA-1.
pub fn upload_verified(files: &Vec<CloudFile>, remote_name: &str, sha: &[u8]) -> (result: Result<
    CloudFile,
    CloudError,
>)
    requires
        sha@.len() == 20,
    ensures
        match result {
            Ok(file) => first_upload(views(files@), remote_name@, sha@) == Some(file@),
            Err(error) => error == CloudError::NotVerifiable && first_upload(
                views(files@),
                remote_name@,
                sha@,
            ) is None,
        },
{
    let expected: String = hex_encode(sha);
    let ghost all = views(files@);
    let mut i: usize = 0;
    assert(all.skip(0) =~= all);
    while i < files.len()
        invariant
            i <= files@.len(),
            all == views(files@),
            expected@ == hex_text(sha@),
            first_upload(all, remote_name@, sha@) == first_upload(
                all.skip(i as int),
                remote_name@,
                sha@,
            ),
        decreases files@.len() - i,
    {
        assert(all.skip(i as int)[0] == files@[i as int]@);
        assert(all.skip(i as int).drop_first() =~= all.skip(i + 1));
        let same_sha: bool = match &files[i].save.identity.steam_sha1 {
            Some(actual) => same_text(actual.as_str(), expected.as_str()),
            None => false,
        };
        if same_sha && same_text(files[i].request_name.as_str(), remote_name) {
            return Ok(files[i].clone());
        }
        i += 1;
    }
    Err(CloudError::NotVerifiable)
}

} // verus!
