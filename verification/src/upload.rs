//! An upload from its announcement to its verification: which call comes next, and what the
//! answers so far come to.
use vstd::prelude::*;

use crate::bytes::to_vec;
use crate::cloud::{CloudError, CloudFile, CloudView};
use crate::digest::sha1_of;
use crate::ids::{client_id, is_random_id};
use crate::model::STEAM_APP_ID;
use crate::order::views;
use crate::transfer::{
    batch_of, batch_request, block_plan, check_committed, check_upload_begun, commit_request,
    complete_request, first_upload, found_upload_is_listed, is_upload, planned_block, upload_digest,
    upload_request, upload_verified, BatchRequest, BlockPlan, BlockRequest, CommitRequest,
    CompleteRequest, UploadRequest, MAX_SAVE_TRANSFER_SIZE,
};

verus! {

/// Why an upload failed.
#[derive(Debug, Clone, Copy, PartialEq, Eq, Structural)]
pub enum UploadFailure {
    /// A call failed; where several did, the first of them counts.
    Call,
    /// The upload succeeded, but the call that completes its batch failed.
    Completion,
    /// An answer of Steam cannot be gone on with.
    Cloud(CloudError),
}

/// What became of the call or the transfer that an upload asked for.
#[derive(Debug)]
pub enum UploadEvent {
    /// Steam began a batch.
    BatchBegun(Option<u64>),
    /// Steam says in which parts it wants the file.
    FileBegun { encrypt_file: Option<bool>, blocks: Vec<BlockRequest> },
    /// A part was sent, or could not be.
    PartSent(bool),
    /// Steam answered whether it took the file over.
    Committed(Option<bool>),
    /// Steam completed the batch.
    Completed,
    /// Steam listed the saves.
    Listed(Vec<CloudFile>),
    /// The call failed.
    CallFailed,
}

/// What an upload asks for next.
#[derive(Debug)]
pub enum UploadAction {
    BeginBatch(BatchRequest),
    BeginFile(UploadRequest),
    Send(BlockPlan),
    Commit(CommitRequest),
    Complete(CompleteRequest),
    /// The saves are listed anew.
    List,
    /// The upload is on Steam.
    Verified(CloudFile),
    Failed(UploadFailure),
}

#[derive(Debug)]
enum Stage {
    BatchNext,
    FileNext { batch_id: u64 },
    Sending { batch_id: u64, blocks: Vec<BlockRequest>, sent: usize },
    CommitNext { batch_id: u64, transferred: bool },
    CompleteNext { batch_id: u64, failure: Option<UploadFailure> },
    ListNext,
    Verified(CloudFile),
    Failed(UploadFailure),
}

/// How far an upload is.
pub enum StageView {
    /// The batch is to be begun.
    BatchNext,
    /// The file is to be begun.
    FileNext { batch_id: u64 },
    /// The part behind the first `sent` is to be sent.
    Sending { batch_id: u64, blocks: Seq<BlockRequest>, sent: int },
    /// The file is to be committed; `transferred` says whether all parts were sent.
    CommitNext { batch_id: u64, transferred: bool },
    /// The batch is to be completed, with what went wrong.
    CompleteNext { batch_id: u64, failure: Option<UploadFailure> },
    /// The upload is to be looked for.
    ListNext,
    Verified(CloudView),
    Failed(UploadFailure),
}

/// An upload in progress.
#[derive(Debug)]
pub struct Upload {
    remote_name: String,
    bytes: Vec<u8>,
    sha: Vec<u8>,
    stage: Stage,
}

/// What is uploaded, and how far it is.
pub struct UploadProgress {
    pub remote_name: Seq<char>,
    pub bytes: Seq<u8>,
    pub stage: StageView,
}

impl View for Upload {
    type V = UploadProgress;

    closed spec fn view(&self) -> UploadProgress {
        UploadProgress {
            remote_name: self.remote_name@,
            bytes: self.bytes@,
            stage: match self.stage {
                Stage::BatchNext => StageView::BatchNext,
                Stage::FileNext { batch_id } => StageView::FileNext { batch_id },
                Stage::Sending { batch_id, blocks, sent } => StageView::Sending {
                    batch_id,
                    blocks: blocks@,
                    sent: sent as int,
                },
                Stage::CommitNext { batch_id, transferred } => StageView::CommitNext {
                    batch_id,
                    transferred,
                },
                Stage::CompleteNext { batch_id, failure } => StageView::CompleteNext {
                    batch_id,
                    failure,
                },
                Stage::ListNext => StageView::ListNext,
                Stage::Verified(file) => StageView::Verified(file@),
                Stage::Failed(failure) => StageView::Failed(failure),
            },
        }
    }
}

/// How far an upload is behind the first `sent` parts.
pub open spec fn behind_parts(
    bytes: Seq<u8>,
    batch_id: u64,
    blocks: Seq<BlockRequest>,
    sent: int,
) -> StageView {
    if sent >= blocks.len() {
        StageView::CommitNext { batch_id, transferred: true }
    } else {
        match planned_block(blocks[sent], bytes) {
            Ok(_) => StageView::Sending { batch_id, blocks, sent },
            Err(error) => StageView::CompleteNext {
                batch_id,
                failure: Some(UploadFailure::Cloud(error)),
            },
        }
    }
}

/// How far an upload is behind an event. An event that does not answer what the upload asked
/// for changes nothing.
pub open spec fn next_stage(upload: UploadProgress, event: UploadEvent) -> StageView {
    match (upload.stage, event) {
        (StageView::BatchNext, UploadEvent::BatchBegun(Some(batch_id))) => StageView::FileNext {
            batch_id,
        },
        (StageView::BatchNext, UploadEvent::BatchBegun(None)) => StageView::Failed(
            UploadFailure::Cloud(CloudError::BatchIdMissing),
        ),
        (StageView::BatchNext, UploadEvent::CallFailed) => StageView::Failed(UploadFailure::Call),
        (StageView::FileNext { batch_id }, UploadEvent::FileBegun { encrypt_file, blocks }) => {
            if encrypt_file == Some(true) {
                StageView::CompleteNext {
                    batch_id,
                    failure: Some(UploadFailure::Cloud(CloudError::EncryptionRequested)),
                }
            } else {
                behind_parts(upload.bytes, batch_id, blocks@, 0)
            }
        },
        (StageView::FileNext { batch_id }, UploadEvent::CallFailed) => StageView::CompleteNext {
            batch_id,
            failure: Some(UploadFailure::Call),
        },
        (StageView::Sending { batch_id, blocks, sent }, UploadEvent::PartSent(true)) => {
            behind_parts(upload.bytes, batch_id, blocks, sent + 1)
        },
        (StageView::Sending { batch_id, .. }, UploadEvent::PartSent(false)) => {
            StageView::CommitNext { batch_id, transferred: false }
        },
        (StageView::CommitNext { batch_id, transferred }, UploadEvent::Committed(committed)) => {
            StageView::CompleteNext {
                batch_id,
                failure: if transferred && committed == Some(true) {
                    None
                } else {
                    Some(UploadFailure::Cloud(CloudError::NotCommitted))
                },
            }
        },
        (StageView::CommitNext { batch_id, .. }, UploadEvent::CallFailed) => {
            StageView::CompleteNext { batch_id, failure: Some(UploadFailure::Call) }
        },
        (StageView::CompleteNext { failure: Some(failure), .. }, UploadEvent::Completed)
        | (StageView::CompleteNext { failure: Some(failure), .. }, UploadEvent::CallFailed) => {
            StageView::Failed(failure)
        },
        (StageView::CompleteNext { failure: None, .. }, UploadEvent::Completed) => {
            StageView::ListNext
        },
        (StageView::CompleteNext { failure: None, .. }, UploadEvent::CallFailed) => {
            StageView::Failed(UploadFailure::Completion)
        },
        (StageView::ListNext, UploadEvent::Listed(files)) => {
            match first_upload(views(files@), upload.remote_name, sha1_of(upload.bytes)) {
                Some(file) => StageView::Verified(file),
                None => StageView::Failed(UploadFailure::Cloud(CloudError::NotVerifiable)),
            }
        },
        (StageView::ListNext, UploadEvent::CallFailed) => StageView::Failed(UploadFailure::Call),
        (stage, _) => stage,
    }
}

/// Whether an upload is over.
pub open spec fn is_over(stage: StageView) -> bool {
    stage is Verified || stage is Failed
}

/// Whether an action is what an upload asks for.
pub open spec fn is_next_action(upload: UploadProgress, action: UploadAction) -> bool {
    match (upload.stage, action) {
        (StageView::BatchNext, UploadAction::BeginBatch(request)) => {
            &&& request.appid == STEAM_APP_ID
            &&& request.machine_name@ == "IsaacCloudSync iPhone"@
            &&& request.file_to_upload@ == upload.remote_name
            &&& exists|id: Seq<u8>|
                is_random_id(id) && request.client_id == #[trigger] client_id(id)
            &&& request.app_build_id == 0
        },
        (StageView::FileNext { batch_id }, UploadAction::BeginFile(request)) => {
            &&& request.appid == STEAM_APP_ID
            &&& request.file_size == upload.bytes.len()
            &&& request.raw_file_size == upload.bytes.len()
            &&& request.file_sha@ == sha1_of(upload.bytes)
            &&& request.filename@ == upload.remote_name
            &&& request.platforms_to_sync == u32::MAX
            &&& request.cell_id == 0
            &&& !request.can_encrypt
            &&& !request.is_shared_file
            &&& request.deprecated_realm == 1
            &&& request.upload_batch_id == batch_id
        },
        (StageView::Sending { blocks, sent, .. }, UploadAction::Send(plan)) => planned_block(
            blocks[sent],
            upload.bytes,
        ) == Ok::<_, CloudError>(plan@),
        (StageView::CommitNext { transferred, .. }, UploadAction::Commit(request)) => {
            &&& request.transfer_succeeded == transferred
            &&& request.appid == STEAM_APP_ID
            &&& request.file_sha@ == sha1_of(upload.bytes)
            &&& request.filename@ == upload.remote_name
        },
        (StageView::CompleteNext { batch_id, failure }, UploadAction::Complete(request)) => request
            == (CompleteRequest {
            appid: STEAM_APP_ID,
            batch_id,
            batch_eresult: if failure is None {
                1
            } else {
                2
            },
        }),
        (StageView::ListNext, UploadAction::List) => true,
        (StageView::Verified(file), UploadAction::Verified(verified)) => verified@ == file,
        (StageView::Failed(failure), UploadAction::Failed(failed)) => failed == failure,
        _ => false,
    }
}

/// How far an upload is behind the first `sent` parts.
fn stage_behind_parts(bytes: &[u8], batch_id: u64, blocks: Vec<BlockRequest>, sent: usize) -> (stage:
    Stage)
    ensures
        match stage {
            Stage::Sending { batch_id: id, blocks: parts, sent: count } => behind_parts(
                bytes@,
                batch_id,
                blocks@,
                sent as int,
            ) == (StageView::Sending { batch_id: id, blocks: parts@, sent: count as int }),
            Stage::CommitNext { batch_id: id, transferred } => behind_parts(
                bytes@,
                batch_id,
                blocks@,
                sent as int,
            ) == (StageView::CommitNext { batch_id: id, transferred }),
            Stage::CompleteNext { batch_id: id, failure } => behind_parts(
                bytes@,
                batch_id,
                blocks@,
                sent as int,
            ) == (StageView::CompleteNext { batch_id: id, failure }),
            _ => false,
        },
{
    if sent >= blocks.len() {
        return Stage::CommitNext { batch_id, transferred: true };
    }
    match block_plan(&blocks[sent], bytes) {
        Ok(_) => Stage::Sending { batch_id, blocks, sent },
        Err(error) => Stage::CompleteNext { batch_id, failure: Some(UploadFailure::Cloud(error)) },
    }
}

/// How an upload begins, unless it is too large.
pub open spec fn upload_begun(remote_name: Seq<char>, bytes: Seq<u8>) -> Result<
    UploadProgress,
    CloudError,
> {
    if bytes.len() <= MAX_SAVE_TRANSFER_SIZE {
        Ok(UploadProgress { remote_name, bytes, stage: StageView::BatchNext })
    } else {
        Err(CloudError::UploadLimit)
    }
}

impl Upload {
    /// Whether the upload is one that began with `new`.
    pub closed spec fn wf(&self) -> bool {
        &&& self.sha@ == sha1_of(self.bytes@)
        &&& self.sha@.len() == 20
        &&& self.bytes@.len() <= MAX_SAVE_TRANSFER_SIZE
        &&& self.stage matches Stage::Sending { blocks, sent, .. } ==> sent < blocks@.len()
            && planned_block(blocks@[sent as int], self.bytes@) is Ok
    }

    /// The upload of `bytes` under the name `remote_name`, unless there are too many of them.
    pub fn new(remote_name: &str, bytes: &[u8]) -> (result: Result<Upload, CloudError>)
        ensures
            match result {
                Ok(upload) => upload.wf() && upload_begun(remote_name@, bytes@) == Ok::<
                    UploadProgress,
                    CloudError,
                >(upload@),
                Err(error) => upload_begun(remote_name@, bytes@) == Err::<
                    UploadProgress,
                    CloudError,
                >(error),
            },
    {
        let sha: Vec<u8> = match upload_digest(bytes) {
            Ok(sha) => sha,
            Err(error) => return Err(error),
        };
        Ok(
            Upload {
                remote_name: remote_name.to_owned(),
                bytes: to_vec(bytes),
                sha,
                stage: Stage::BatchNext,
            },
        )
    }

    /// What the upload asks for next.
    pub fn action(&self) -> (action: UploadAction)
        requires
            self.wf(),
        ensures
            is_next_action(self@, action),
    {
        let name: &str = self.remote_name.as_str();
        match &self.stage {
            Stage::BatchNext => UploadAction::BeginBatch(batch_request(name)),
            Stage::FileNext { batch_id } => UploadAction::BeginFile(
                upload_request(*batch_id, name, &self.bytes, &self.sha),
            ),
            Stage::Sending { blocks, sent, .. } => match block_plan(&blocks[*sent], &self.bytes) {
                Ok(plan) => UploadAction::Send(plan),
                Err(error) => UploadAction::Failed(UploadFailure::Cloud(error)),
            },
            Stage::CommitNext { transferred, .. } => UploadAction::Commit(
                commit_request(*transferred, name, &self.sha),
            ),
            Stage::CompleteNext { batch_id, failure } => UploadAction::Complete(
                complete_request(*batch_id, failure.is_none()),
            ),
            Stage::ListNext => UploadAction::List,
            Stage::Verified(file) => UploadAction::Verified(file.clone()),
            Stage::Failed(failure) => UploadAction::Failed(*failure),
        }
    }

    /// What the upload came to, if it is over.
    pub fn outcome(&self) -> (outcome: Option<Result<CloudFile, UploadFailure>>)
        ensures
            match outcome {
                Some(Ok(file)) => self@.stage == StageView::Verified(file@),
                Some(Err(failure)) => self@.stage == StageView::Failed(failure),
                None => !is_over(self@.stage),
            },
    {
        match &self.stage {
            Stage::Verified(file) => Some(Ok(file.clone())),
            Stage::Failed(failure) => Some(Err(*failure)),
            _ => None,
        }
    }

    /// The upload behind an event.
    pub fn step(self, event: UploadEvent) -> (next: Upload)
        requires
            self.wf(),
        ensures
            next.wf(),
            next@ == (UploadProgress { stage: next_stage(self@, event), ..self@ }),
    {
        let Upload { remote_name, bytes, sha, stage } = self;
        let stage: Stage = match (stage, event) {
            (Stage::BatchNext, UploadEvent::BatchBegun(batch_id)) => match batch_of(batch_id) {
                Ok(batch_id) => Stage::FileNext { batch_id },
                Err(error) => Stage::Failed(UploadFailure::Cloud(error)),
            },
            (Stage::BatchNext, UploadEvent::CallFailed) => Stage::Failed(UploadFailure::Call),
            (Stage::FileNext { batch_id }, UploadEvent::FileBegun { encrypt_file, blocks }) => {
                match check_upload_begun(encrypt_file) {
                    Ok(()) => stage_behind_parts(&bytes, batch_id, blocks, 0),
                    Err(error) => Stage::CompleteNext {
                        batch_id,
                        failure: Some(UploadFailure::Cloud(error)),
                    },
                }
            },
            (Stage::FileNext { batch_id }, UploadEvent::CallFailed) => Stage::CompleteNext {
                batch_id,
                failure: Some(UploadFailure::Call),
            },
            (Stage::Sending { batch_id, blocks, sent }, UploadEvent::PartSent(true)) => {
                let total: usize = blocks.len();
                assert(sent < total);
                stage_behind_parts(&bytes, batch_id, blocks, sent + 1)
            },
            (Stage::Sending { batch_id, .. }, UploadEvent::PartSent(false)) => {
                Stage::CommitNext { batch_id, transferred: false }
            },
            (Stage::CommitNext { batch_id, transferred }, UploadEvent::Committed(committed)) => {
                match check_committed(transferred, committed) {
                    Ok(()) => Stage::CompleteNext { batch_id, failure: None },
                    Err(error) => Stage::CompleteNext {
                        batch_id,
                        failure: Some(UploadFailure::Cloud(error)),
                    },
                }
            },
            (Stage::CommitNext { batch_id, .. }, UploadEvent::CallFailed) => Stage::CompleteNext {
                batch_id,
                failure: Some(UploadFailure::Call),
            },
            (Stage::CompleteNext { failure, .. }, UploadEvent::Completed) => match failure {
                Some(failure) => Stage::Failed(failure),
                None => Stage::ListNext,
            },
            (Stage::CompleteNext { failure, .. }, UploadEvent::CallFailed) => match failure {
                Some(failure) => Stage::Failed(failure),
                None => Stage::Failed(UploadFailure::Completion),
            },
            (Stage::ListNext, UploadEvent::Listed(files)) => {
                match upload_verified(&files, remote_name.as_str(), &sha) {
                    Ok(file) => Stage::Verified(file),
                    Err(error) => Stage::Failed(UploadFailure::Cloud(error)),
                }
            },
            (Stage::ListNext, UploadEvent::CallFailed) => Stage::Failed(UploadFailure::Call),
            (stage, _) => stage,
        };
        Upload { remote_name, bytes, sha, stage }
    }
}

/// The batch that an upload has begun and not completed.
pub open spec fn open_batch(stage: StageView) -> Option<u64> {
    match stage {
        StageView::FileNext { batch_id } => Some(batch_id),
        StageView::Sending { batch_id, .. } => Some(batch_id),
        StageView::CommitNext { batch_id, .. } => Some(batch_id),
        StageView::CompleteNext { batch_id, .. } => Some(batch_id),
        _ => None,
    }
}

/// A batch that was begun stays open, whatever happens, until the upload has asked Steam to
/// complete it.
pub proof fn begun_batches_are_completed(upload: UploadProgress, event: UploadEvent)
    requires
        open_batch(upload.stage) is Some,
    ensures
        open_batch(next_stage(upload, event)) == open_batch(upload.stage)
            || upload.stage is CompleteNext,
{
}

/// Steam is told of a success only where there is one: all parts count as sent only behind the
/// last of them, and the batch counts as successful only where all parts were sent and Steam
/// took the file over.
pub proof fn successes_are_real(upload: UploadProgress, event: UploadEvent)
    ensures
        ({
            let next = next_stage(upload, event);
            &&& upload.stage !is CommitNext && (next matches StageView::CommitNext {
                transferred,
                ..
            } && transferred) ==> match (upload.stage, event) {
                (StageView::FileNext { .. }, UploadEvent::FileBegun { blocks, .. }) => blocks@.len()
                    == 0,
                (StageView::Sending { blocks, sent, .. }, UploadEvent::PartSent(ok)) => ok && sent
                    + 1 >= blocks.len(),
                _ => false,
            }
            &&& upload.stage !is CompleteNext && (next matches StageView::CompleteNext {
                failure,
                ..
            } && failure is None) ==> (upload.stage matches StageView::CommitNext {
                transferred,
                ..
            } && transferred) && event == UploadEvent::Committed(Some(true))
            &&& upload.stage !is ListNext && next is ListNext ==> (
            upload.stage matches StageView::CompleteNext { failure, .. } && failure is None)
                && event is Completed
        }),
{
}

/// An upload counts only where Steam lists a file of its name with the SHA-1 of its bytes.
pub proof fn verified_uploads_are_listed(upload: UploadProgress, event: UploadEvent)
    requires
        upload.stage !is Verified,
    ensures
        next_stage(upload, event) matches StageView::Verified(file) ==> upload.stage is ListNext
            && is_upload(file, upload.remote_name, sha1_of(upload.bytes)) && (
        event matches UploadEvent::Listed(files) && views(files@).contains(file)),
{
    if let UploadEvent::Listed(files) = event {
        found_upload_is_listed(views(files@), upload.remote_name, sha1_of(upload.bytes));
    }
}

} // verus!
