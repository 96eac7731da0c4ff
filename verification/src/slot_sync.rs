//! What is done with one slot, and what a synchronization of all slots comes to.
use vstd::pervasive::unreached;
use vstd::prelude::*;

use crate::bytes::to_vec;
use crate::cloud::{CloudFile, CloudView};
use crate::digest::{identity_for_bytes, identity_of};
use crate::engine::{
    choice_between, choice_summary, choice_without_remote, may_upload, missing_remote_choice,
    remote_for_slot, remote_of_slot, upload_allowed, ChoiceKind, EngineError,
};
use crate::isaac_format::{
    as_rep, canonical_form, canonicalize_save, convert_rep_plus_to_rep, is_canonical, is_rep_plus,
    is_rep_plus_save, CanonicalSave, SaveEncoding,
};
use crate::isaac_format_laws::{canonical_form_is_stable, conversions_reach_their_generation};
use crate::model::{
    BackupSource, FileIdentity, IdentityView, LocalSave, LocalView, PullView, SyncState, SyncView,
};
use crate::order::views;
use crate::pull::{settled_pull, Pull};
use crate::push::{settled_push, Push, PushTarget, TargetView};
use crate::status::{ChoiceView, PendingChoice};
use crate::sync_engine::{decide, decision, SyncDecision};
use crate::sync_state::{
    base_of, forget_remote_pull, make_file_state, other_slots_stay, prior_entry, synced_entry,
    update_sets_base, upsert_state, upserted,
};
use crate::text::{same_optional_text, same_text};

verus! {

/// A save on Steam as it was downloaded.
#[derive(Debug)]
pub struct RemoteCopy {
    /// The canonical form.
    pub canonical: Vec<u8>,
    /// The canonical form in the Repentance layout, which the device's save is compared with.
    pub normalized: Vec<u8>,
    /// Whether Steam holds the encoding of the device, which the game cannot read elsewhere.
    pub needs_repair: bool,
    /// The identity of the normalized form, with the time and the SHA-1 that Steam lists.
    pub identity: FileIdentity,
}

/// What a `RemoteCopy` holds.
pub struct CopyView {
    pub canonical: Seq<u8>,
    pub normalized: Seq<u8>,
    pub needs_repair: bool,
    pub identity: IdentityView,
}

impl View for RemoteCopy {
    type V = CopyView;

    open spec fn view(&self) -> CopyView {
        CopyView {
            canonical: self.canonical@,
            normalized: self.normalized@,
            needs_repair: self.needs_repair,
            identity: self.identity@,
        }
    }
}

/// The identity of Steam's copy in its normalized form.
pub open spec fn copy_identity(normalized: Seq<u8>, file: CloudView) -> IdentityView {
    IdentityView {
        modified_unix_ms: file.save.identity.modified_unix_ms,
        steam_sha1: file.save.identity.steam_sha1,
        ..identity_of(normalized)
    }
}

/// What the downloaded bytes of a save are, or why they are no save.
pub open spec fn copy_of(raw: Seq<u8>, file: CloudView, slot: u8) -> Result<CopyView, EngineError> {
    match canonical_form(raw) {
        Err(error) => Err(EngineError::InvalidRemote { slot, error }),
        Ok((canonical, encoding)) => match as_rep(canonical) {
            Err(error) => Err(EngineError::Conversion(error)),
            Ok(normalized) => Ok(
                CopyView {
                    canonical,
                    normalized,
                    needs_repair: encoding == SaveEncoding::IosRawLz4,
                    identity: copy_identity(normalized, file),
                },
            ),
        },
    }
}

/// What the downloaded bytes of a save are. Bytes that are no save are backed up as they came.
pub fn evaluate_remote(raw: &[u8], file: &CloudFile, slot: u8) -> (result: Result<
    RemoteCopy,
    EngineError,
>)
    ensures
        match result {
            Ok(copy) => copy_of(raw@, file@, slot) == Ok::<CopyView, EngineError>(copy@),
            Err(error) => copy_of(raw@, file@, slot) == Err::<CopyView, EngineError>(error),
        },
{
    let canonical: CanonicalSave = match canonicalize_save(raw) {
        Ok(canonical) => canonical,
        Err(error) => return Err(EngineError::InvalidRemote { slot, error }),
    };
    proof {
        canonical_form_is_stable(raw@);
    }
    let normalized: Vec<u8> = if is_rep_plus_save(&canonical.bytes) {
        match convert_rep_plus_to_rep(&canonical.bytes) {
            Ok(normalized) => normalized,
            Err(error) => return Err(EngineError::Conversion(error)),
        }
    } else {
        to_vec(&canonical.bytes)
    };
    let mut identity: FileIdentity = identity_for_bytes(&normalized);
    identity.modified_unix_ms = file.save.identity.modified_unix_ms;
    identity.steam_sha1 = file.save.identity.steam_sha1.clone();
    Ok(
        RemoteCopy {
            canonical: canonical.bytes,
            normalized,
            needs_repair: canonical.encoding == SaveEncoding::IosRawLz4,
            identity,
        },
    )
}

/// What is done with a slot.
#[derive(Debug, Clone, Copy, PartialEq, Eq, Structural)]
pub enum SlotStep {
    /// Nothing.
    Keep,
    /// The device's save is uploaded.
    Push,
    /// The device's save waits until the user asks for the upload.
    UploadWaits,
    /// Both sides agree, so their version becomes the last common one.
    AdvanceBase { upload_waits: bool },
    /// Steam's version replaces the device's save: its normalized form where the user queued
    /// it, and its canonical form where Steam alone changed.
    Pull { queued: bool },
    /// The user decides.
    Choose(ChoiceKind),
}

/// What is done with a slot, and whether its queued pull is taken back.
#[derive(Debug, Clone, Copy, PartialEq, Eq, Structural)]
pub struct SlotPlan {
    pub forget_pull: bool,
    /// What the comparison of the two sides said, where no queued pull came first.
    pub compared: Option<SyncDecision>,
    pub step: SlotStep,
}

/// What is done by the comparison of the two sides with the last common version.
pub open spec fn step_for(
    compared: SyncDecision,
    needs_repair: bool,
    allow_upload: bool,
    replacement_allowed: bool,
) -> SlotStep {
    match compared {
        SyncDecision::Unchanged => if !needs_repair {
            SlotStep::Keep
        } else if allow_upload {
            SlotStep::Push
        } else {
            SlotStep::UploadWaits
        },
        SyncDecision::Converged => if needs_repair && allow_upload {
            SlotStep::Push
        } else {
            SlotStep::AdvanceBase { upload_waits: needs_repair }
        },
        SyncDecision::UploadLocal => if allow_upload {
            SlotStep::Push
        } else {
            SlotStep::UploadWaits
        },
        SyncDecision::DownloadRemote => if replacement_allowed {
            SlotStep::Pull { queued: false }
        } else {
            SlotStep::Choose(ChoiceKind::RestartRequired)
        },
        SyncDecision::FirstSyncChoiceRequired => SlotStep::Choose(ChoiceKind::FirstSync),
        SyncDecision::Conflict => SlotStep::Choose(ChoiceKind::Conflict),
    }
}

/// Whether Steam still has the version that the user queued.
pub open spec fn still_queued(pull: PullView, remote: CloudView, identity: IdentityView) -> bool {
    pull.remote_name == remote.request_name && pull.expected_steam_sha1 == identity.steam_sha1
}

/// What is done with a slot: a queued pull first, as long as Steam still has that version, and
/// else what the comparison says.
pub open spec fn planned(
    state: SyncView,
    local: LocalView,
    remote: CloudView,
    copy: CopyView,
    allow_upload: bool,
    replacement_allowed: bool,
) -> SlotPlan {
    let compared = decision(
        base_of(state.files, local.slot),
        local.identity.sha256,
        copy.identity.sha256,
    );
    let step = step_for(compared, copy.needs_repair, allow_upload, replacement_allowed);
    if !state.pending_remote_pulls.dom().contains(local.slot) {
        SlotPlan { forget_pull: false, compared: Some(compared), step }
    } else if !still_queued(
        state.pending_remote_pulls[local.slot],
        remote,
        copy.identity,
    ) {
        SlotPlan { forget_pull: true, compared: Some(compared), step }
    } else if replacement_allowed {
        SlotPlan { forget_pull: true, compared: None, step: SlotStep::Pull { queued: true } }
    } else {
        SlotPlan {
            forget_pull: false,
            compared: None,
            step: SlotStep::Choose(ChoiceKind::RestartRequired),
        }
    }
}

/// What is done by the comparison of the two sides with the last common version.
fn step_of(compared: SyncDecision, needs_repair: bool, allow_upload: bool, replacement_allowed: bool) -> (step:
    SlotStep)
    ensures
        step == step_for(compared, needs_repair, allow_upload, replacement_allowed),
{
    match compared {
        SyncDecision::Unchanged => if !needs_repair {
            SlotStep::Keep
        } else if allow_upload {
            SlotStep::Push
        } else {
            SlotStep::UploadWaits
        },
        SyncDecision::Converged => if needs_repair && allow_upload {
            SlotStep::Push
        } else {
            SlotStep::AdvanceBase { upload_waits: needs_repair }
        },
        SyncDecision::UploadLocal => if allow_upload {
            SlotStep::Push
        } else {
            SlotStep::UploadWaits
        },
        SyncDecision::DownloadRemote => if replacement_allowed {
            SlotStep::Pull { queued: false }
        } else {
            SlotStep::Choose(ChoiceKind::RestartRequired)
        },
        SyncDecision::FirstSyncChoiceRequired => SlotStep::Choose(ChoiceKind::FirstSync),
        SyncDecision::Conflict => SlotStep::Choose(ChoiceKind::Conflict),
    }
}

/// What is done with a slot.
pub fn plan_slot(
    state: &SyncState,
    local: &LocalSave,
    remote: &CloudFile,
    copy: &RemoteCopy,
    allow_upload: bool,
    replacement_allowed: bool,
) -> (plan: SlotPlan)
    ensures
        plan == planned(state@, local@, remote@, copy@, allow_upload, replacement_allowed),
{
    let mut forget_pull: bool = false;
    if let Some(pull) = state.pending_remote_pulls.get(&local.slot) {
        assert(state@.pending_remote_pulls[local.slot] == pull@);
        let still_same: bool = same_text(pull.remote_name.as_str(), remote.request_name.as_str())
            && same_optional_text(&pull.expected_steam_sha1, &copy.identity.steam_sha1);
        if still_same && replacement_allowed {
            return SlotPlan {
                forget_pull: true,
                compared: None,
                step: SlotStep::Pull { queued: true },
            };
        }
        if still_same {
            return SlotPlan {
                forget_pull: false,
                compared: None,
                step: SlotStep::Choose(ChoiceKind::RestartRequired),
            };
        }
        forget_pull = true;
    }
    let base: Option<&str> = match prior_entry(state, local.slot) {
        Some(entry) => Some(entry.base_sha256.as_str()),
        None => None,
    };
    let compared: SyncDecision = decide(
        base,
        local.identity.sha256.as_str(),
        copy.identity.sha256.as_str(),
    );
    SlotPlan {
        forget_pull,
        compared: Some(compared),
        step: step_of(compared, copy.needs_repair, allow_upload, replacement_allowed),
    }
}

/// What is backed up ahead of a step that leaves both versions to the user.
pub open spec fn backups_for(step: SlotStep) -> Option<(BackupSource, BackupSource)> {
    match step {
        SlotStep::Choose(ChoiceKind::FirstSync) => Some(
            (BackupSource::LocalFirstSync, BackupSource::SteamFirstSync),
        ),
        SlotStep::Choose(ChoiceKind::Conflict) => Some(
            (BackupSource::LocalConflict, BackupSource::SteamConflict),
        ),
        _ => None,
    }
}

/// As what the device's save and Steam's bytes are backed up ahead of a step.
pub fn backup_sources(step: SlotStep) -> (sources: Option<(BackupSource, BackupSource)>)
    ensures
        sources == backups_for(step),
{
    match step {
        SlotStep::Choose(ChoiceKind::FirstSync) => Some(
            (BackupSource::LocalFirstSync, BackupSource::SteamFirstSync),
        ),
        SlotStep::Choose(ChoiceKind::Conflict) => Some(
            (BackupSource::LocalConflict, BackupSource::SteamConflict),
        ),
        _ => None,
    }
}

/// The bytes that a pull puts on the device.
pub open spec fn pulled_bytes(copy: CopyView, queued: bool) -> Seq<u8> {
    if queued {
        copy.normalized
    } else {
        copy.canonical
    }
}

/// The bytes that a pull puts on the device.
pub fn pull_bytes(copy: &RemoteCopy, queued: bool) -> (bytes: Vec<u8>)
    ensures
        bytes@ == pulled_bytes(copy@, queued),
{
    if queued {
        to_vec(&copy.normalized)
    } else {
        to_vec(&copy.canonical)
    }
}

/// A synchronization in progress.
#[derive(Debug)]
pub struct SyncRun {
    pub state: SyncState,
    pub pending: Vec<PendingChoice>,
    pub uploads_waiting: usize,
}

/// What a `SyncRun` holds.
pub struct RunView {
    pub state: SyncView,
    pub pending: Seq<ChoiceView>,
    pub uploads_waiting: int,
}

impl View for SyncRun {
    type V = RunView;

    open spec fn view(&self) -> RunView {
        RunView {
            state: self.state@,
            pending: views(self.pending@),
            uploads_waiting: self.uploads_waiting as int,
        }
    }
}

/// The synchronization behind the step of a slot. What a push or a pull puts into the state is
/// put there when it has been verified.
pub open spec fn settled(
    run: RunView,
    plan: SlotPlan,
    local: LocalView,
    remote: CloudView,
    identity: IdentityView,
    now: u64,
) -> RunView {
    let state = if plan.forget_pull {
        SyncView {
            pending_remote_pulls: run.state.pending_remote_pulls.remove(local.slot),
            ..run.state
        }
    } else {
        run.state
    };
    match plan.step {
        SlotStep::UploadWaits => RunView { state, uploads_waiting: run.uploads_waiting + 1, ..run },
        SlotStep::AdvanceBase { upload_waits } => RunView {
            state: SyncView {
                files: upserted(state.files, synced_entry(local, remote, identity, now)),
                ..state
            },
            uploads_waiting: run.uploads_waiting + if upload_waits {
                1int
            } else {
                0int
            },
            ..run
        },
        SlotStep::Choose(kind) => RunView {
            state,
            pending: run.pending.push(choice_between(local, remote, identity, kind)),
            ..run
        },
        _ => RunView { state, ..run },
    }
}

/// A synchronization that has looked at all slots.
pub open spec fn run_finished(run: RunView, change_number: u64) -> RunView {
    RunView {
        state: SyncView { cloud_change_number: Some(change_number), ..run.state },
        ..run
    }
}

impl SyncRun {
    /// A synchronization that has looked at no slot yet.
    pub fn new(state: SyncState) -> (run: SyncRun)
        ensures
            run@ == (RunView { state: state@, pending: seq![], uploads_waiting: 0 }),
    {
        let run: SyncRun = SyncRun { state, pending: Vec::new(), uploads_waiting: 0 };
        assert(run@.pending =~= seq![]);
        run
    }

    /// Steam has no save of the slot, so the user decides.
    pub fn missing_remote(&mut self, local: &LocalSave)
        ensures
            final(self)@ == (RunView {
                pending: old(self)@.pending.push(choice_without_remote(local@)),
                ..old(self)@
            }),
    {
        let ghost held = self.pending@;
        let choice: PendingChoice = missing_remote_choice(local);
        let ghost view = choice@;
        self.pending.push(choice);
        assert(views(self.pending@) =~= views(held).push(view));
    }

    /// The step of a slot has been taken.
    pub fn settle(
        &mut self,
        plan: SlotPlan,
        local: &LocalSave,
        remote: &CloudFile,
        identity: &FileIdentity,
        now: u64,
    )
        requires
            old(self).uploads_waiting < usize::MAX,
        ensures
            final(self)@ == settled(old(self)@, plan, local@, remote@, identity@, now),
    {
        if plan.forget_pull {
            forget_remote_pull(&mut self.state, local.slot);
        }
        match plan.step {
            SlotStep::UploadWaits => {
                self.uploads_waiting = self.uploads_waiting + 1;
            },
            SlotStep::AdvanceBase { upload_waits } => {
                upsert_state(&mut self.state, make_file_state(local, remote, identity, now));
                if upload_waits {
                    self.uploads_waiting = self.uploads_waiting + 1;
                }
            },
            SlotStep::Choose(kind) => {
                let ghost held = self.pending@;
                let choice: PendingChoice = choice_summary(local, remote, identity, kind);
                let ghost view = choice@;
                self.pending.push(choice);
                assert(views(self.pending@) =~= views(held).push(view));
            },
            _ => {},
        }
    }

    /// All slots have been looked at.
    pub fn finish(&mut self, change_number: u64)
        ensures
            final(self)@ == run_finished(old(self)@, change_number),
    {
        self.state.cloud_change_number = Some(change_number);
    }
}

#[derive(Debug)]
enum Stage {
    LookNext,
    KeepInvalidNext { raw: Vec<u8>, error: EngineError },
    BackupNext { raw: Vec<u8>, copy: RemoteCopy, plan: SlotPlan },
    TransferNext { raw: Vec<u8>, copy: RemoteCopy, plan: SlotPlan },
    SettleNext { copy: RemoteCopy, plan: SlotPlan },
    Failed(EngineError),
}

/// How far a synchronization is with the next save.
pub enum PassStage {
    /// Steam's counterpart is to be looked at.
    LookNext,
    /// Steam has these bytes, which are no save; they are to be backed up.
    KeepInvalidNext { raw: Seq<u8>, error: EngineError },
    /// Steam has these bytes. The user will decide; both versions are to be backed up.
    BackupNext { raw: Seq<u8>, copy: CopyView, plan: SlotPlan },
    /// Steam has these bytes. One of the versions is to be carried to the other side.
    TransferNext { raw: Seq<u8>, copy: CopyView, plan: SlotPlan },
    /// What was planned is to be put down.
    SettleNext { copy: CopyView, plan: SlotPlan },
    Failed(EngineError),
}

impl View for Stage {
    type V = PassStage;

    closed spec fn view(&self) -> PassStage {
        match *self {
            Stage::LookNext => PassStage::LookNext,
            Stage::KeepInvalidNext { raw, error } => PassStage::KeepInvalidNext { raw: raw@, error },
            Stage::BackupNext { raw, copy, plan } => PassStage::BackupNext {
                raw: raw@,
                copy: copy@,
                plan,
            },
            Stage::TransferNext { raw, copy, plan } => PassStage::TransferNext {
                raw: raw@,
                copy: copy@,
                plan,
            },
            Stage::SettleNext { copy, plan } => PassStage::SettleNext { copy: copy@, plan },
            Stage::Failed(error) => PassStage::Failed(error),
        }
    }
}

/// A synchronization on its way through the slots of the device.
#[derive(Debug)]
pub struct SyncPass {
    local: Vec<LocalSave>,
    remote: Vec<CloudFile>,
    allow_upload: bool,
    next: usize,
    stage: Stage,
    run: SyncRun,
}

/// What a `SyncPass` holds.
pub struct PassView {
    /// The saves on the device that take part.
    pub local: Seq<LocalView>,
    /// The saves on Steam that take part.
    pub remote: Seq<CloudView>,
    pub allow_upload: bool,
    /// How many saves have been dealt with.
    pub next: int,
    pub stage: PassStage,
    pub run: RunView,
}

impl View for SyncPass {
    type V = PassView;

    closed spec fn view(&self) -> PassView {
        PassView {
            local: views(self.local@),
            remote: views(self.remote@),
            allow_upload: self.allow_upload,
            next: self.next as int,
            stage: self.stage@,
            run: self.run@,
        }
    }
}

/// What a synchronization needs next.
#[derive(Debug)]
pub enum PassAction {
    /// Steam has no save of this slot: the device's save is backed up.
    BackupLocal { local: LocalSave, source: BackupSource },
    /// Steam's save of this slot is downloaded.
    Download { local: LocalSave, file: CloudFile },
    /// Steam's bytes are no save: they are backed up as they came.
    BackupRemote { local: LocalSave, file: CloudFile, bytes: Vec<u8>, source: BackupSource },
    /// Both versions are backed up: the device's save, and Steam's bytes.
    BackupBoth {
        local: LocalSave,
        file: CloudFile,
        bytes: Vec<u8>,
        of_local: BackupSource,
        of_remote: BackupSource,
    },
    /// The device's save is carried to Steam.
    Push { local: LocalSave, target: PushTarget },
    /// The device's save is replaced by these bytes of Steam's file.
    Pull { local: LocalSave, file: CloudFile, bytes: Vec<u8> },
    /// What was planned is put down.
    Settle,
    /// Every save has been dealt with.
    Finish,
    Failed(EngineError),
}

/// Whether a save of the device is still to be dealt with.
pub open spec fn in_progress(pass: PassView) -> bool {
    0 <= pass.next < pass.local.len()
}

/// The next save on the device.
pub open spec fn next_local(pass: PassView) -> LocalView {
    pass.local[pass.next]
}

/// The save on Steam that belongs to the next save on the device.
pub open spec fn counterpart(pass: PassView) -> Option<CloudView> {
    remote_of_slot(pass.remote, next_local(pass).slot)
}

/// How far a synchronization is when the next slot has been planned, of which Steam has `raw`.
pub open spec fn behind_plan(raw: Seq<u8>, copy: CopyView, plan: SlotPlan) -> PassStage {
    if plan.step is Push || plan.step is Pull {
        PassStage::TransferNext { raw, copy, plan }
    } else if backups_for(plan.step) is Some {
        PassStage::BackupNext { raw, copy, plan }
    } else {
        PassStage::SettleNext { copy, plan }
    }
}

/// How far a synchronization is when Steam's save of the next slot has been evaluated: it is
/// planned, and what is no save ends the synchronization, behind a backup.
pub open spec fn behind_copy(
    pass: PassView,
    raw: Seq<u8>,
    copy: Result<CopyView, EngineError>,
    replacement_allowed: bool,
) -> PassStage {
    match copy {
        Err(error) => if error is InvalidRemote {
            PassStage::KeepInvalidNext { raw, error }
        } else {
            PassStage::Failed(error)
        },
        Ok(copy) => behind_plan(
            raw,
            copy,
            planned(
                pass.run.state,
                next_local(pass),
                counterpart(pass).unwrap(),
                copy,
                pass.allow_upload,
                replacement_allowed,
            ),
        ),
    }
}

/// How far a synchronization is when Steam's save of the next slot has been downloaded.
pub open spec fn behind_download(
    pass: PassView,
    raw: Seq<u8>,
    replacement_allowed: bool,
) -> PassStage {
    let copy = copy_of(raw, counterpart(pass).unwrap(), next_local(pass).slot);
    behind_copy(pass, raw, copy, replacement_allowed)
}

/// Whether this push is what the synchronization asks for.
pub open spec fn is_planned_push(pass: PassView, local: LocalView, target: TargetView) -> bool {
    match (pass.stage, target) {
        (PassStage::TransferNext { raw, plan, .. }, TargetView::Over { file, bytes }) => plan.step
            is Push && local == next_local(pass) && counterpart(pass) == Some(file) && bytes == raw,
        _ => false,
    }
}

/// Whether this pull is what the synchronization asks for.
pub open spec fn is_planned_pull(
    pass: PassView,
    local: LocalView,
    file: CloudView,
    bytes: Seq<u8>,
) -> bool {
    match pass.stage {
        PassStage::TransferNext { copy, plan, .. } => match plan.step {
            SlotStep::Pull { queued } => local == next_local(pass) && counterpart(pass) == Some(
                file,
            ) && bytes == pulled_bytes(copy, queued),
            _ => false,
        },
        _ => false,
    }
}

/// Whether an action is what is needed next.
pub open spec fn is_next_pass_action(pass: PassView, action: PassAction) -> bool {
    match (pass.stage, action) {
        (PassStage::LookNext, PassAction::Finish) => pass.next == pass.local.len(),
        (PassStage::LookNext, PassAction::BackupLocal { local, source }) => in_progress(pass)
            && local@ == next_local(pass) && counterpart(pass) is None && source
            == BackupSource::LocalFirstSync,
        (PassStage::LookNext, PassAction::Download { local, file }) => in_progress(pass) && local@
            == next_local(pass) && counterpart(pass) == Some(file@),
        (
            PassStage::KeepInvalidNext { raw, .. },
            PassAction::BackupRemote { local, file, bytes, source },
        ) => local@ == next_local(pass) && counterpart(pass) == Some(file@) && bytes@ == raw
            && source == BackupSource::SteamInvalid,
        (
            PassStage::BackupNext { raw, plan, .. },
            PassAction::BackupBoth { local, file, bytes, of_local, of_remote },
        ) => local@ == next_local(pass) && counterpart(pass) == Some(file@) && bytes@ == raw
            && backups_for(plan.step) == Some((of_local, of_remote)),
        (_, PassAction::Push { local, target }) => is_planned_push(pass, local@, target@),
        (_, PassAction::Pull { local, file, bytes }) => is_planned_pull(
            pass,
            local@,
            file@,
            bytes@,
        ),
        (PassStage::SettleNext { .. }, PassAction::Settle) => true,
        (PassStage::Failed(error), PassAction::Failed(reason)) => reason == error,
        _ => false,
    }
}

/// What is planned for the next save.
pub open spec fn plan_of(pass: PassView) -> Option<SlotPlan> {
    match pass.stage {
        PassStage::BackupNext { plan, .. } => Some(plan),
        PassStage::TransferNext { plan, .. } => Some(plan),
        PassStage::SettleNext { plan, .. } => Some(plan),
        _ => None,
    }
}

/// Steam's copy of the next save.
pub open spec fn copy_at(pass: PassView) -> Option<CopyView> {
    match pass.stage {
        PassStage::BackupNext { copy, .. } => Some(copy),
        PassStage::TransferNext { copy, .. } => Some(copy),
        PassStage::SettleNext { copy, .. } => Some(copy),
        _ => None,
    }
}

/// The synchronization when what was planned for the next save has been put down.
pub open spec fn pass_settled(pass: PassView, now: u64) -> PassView {
    match pass.stage {
        PassStage::SettleNext { copy, plan } => PassView {
            next: pass.next + 1,
            stage: PassStage::LookNext,
            run: settled(
                pass.run,
                plan,
                next_local(pass),
                counterpart(pass).unwrap(),
                copy.identity,
                now,
            ),
            ..pass
        },
        _ => pass,
    }
}

/// The synchronization when the next save has been carried to one of the sides, which left
/// `state`.
pub open spec fn pass_transferred(pass: PassView, state: SyncView) -> PassView {
    match pass.stage {
        PassStage::TransferNext { copy, plan, .. } => PassView {
            stage: PassStage::SettleNext { copy, plan },
            run: RunView { state, ..pass.run },
            ..pass
        },
        _ => pass,
    }
}

/// A synchronization that has dealt with no save yet.
pub open spec fn pass_begun(
    trigger: Seq<char>,
    local: Seq<LocalView>,
    remote: Seq<CloudView>,
    state: SyncView,
) -> PassView {
    PassView {
        local,
        remote,
        allow_upload: may_upload(trigger),
        next: 0,
        stage: PassStage::LookNext,
        run: RunView { state, pending: seq![], uploads_waiting: 0 },
    }
}

/// The synchronization when the next save, which Steam does not have, has been backed up.
pub open spec fn pass_without_remote(pass: PassView) -> PassView {
    PassView {
        next: pass.next + 1,
        run: RunView {
            pending: pass.run.pending.push(choice_without_remote(next_local(pass))),
            ..pass.run
        },
        ..pass
    }
}

/// The synchronization when the backup that was asked for behind the download has been made.
pub open spec fn pass_backed_up(pass: PassView) -> PassView {
    PassView {
        stage: match pass.stage {
            PassStage::KeepInvalidNext { error, .. } => PassStage::Failed(error),
            PassStage::BackupNext { copy, plan, .. } => PassStage::SettleNext { copy, plan },
            stage => stage,
        },
        ..pass
    }
}

impl SyncPass {
    /// No more uploads wait than saves have been dealt with, and what is being dealt with has a
    /// counterpart on Steam.
    pub closed spec fn wf(self) -> bool {
        &&& self.run.uploads_waiting <= self.next <= self.local@.len()
        &&& self.stage !is LookNext ==> in_progress(self@) && counterpart(self@) is Some
        &&& self.stage matches Stage::BackupNext { plan, .. } ==> backups_for(plan.step) is Some
        &&& self.stage matches Stage::TransferNext { plan, .. } ==> plan.step is Push
            || plan.step is Pull
    }

    /// A synchronization that has dealt with no save yet.
    pub fn new(trigger: &str, local: Vec<LocalSave>, remote: Vec<CloudFile>, state: SyncState) -> (pass:
        SyncPass)
        ensures
            pass.wf(),
            pass@ == pass_begun(trigger@, views(local@), views(remote@), state@),
    {
        SyncPass {
            local,
            remote,
            allow_upload: upload_allowed(trigger),
            next: 0,
            stage: Stage::LookNext,
            run: SyncRun::new(state),
        }
    }

    /// The next save on the device.
    fn local_save(&self) -> (local: LocalSave)
        requires
            self.wf(),
            in_progress(self@),
        ensures
            local@ == next_local(self@),
    {
        self.local[self.next].clone()
    }

    /// The save on Steam that belongs to the next save on the device.
    fn remote_file(&self) -> (file: CloudFile)
        requires
            self.wf(),
            in_progress(self@),
            counterpart(self@) is Some,
        ensures
            counterpart(self@) == Some(file@),
    {
        let slot: u8 = self.local[self.next].slot;
        match remote_for_slot(&self.remote, slot) {
            Some(file) => file.clone(),
            None => unreached(),
        }
    }

    /// What is needed next.
    pub fn action(&self) -> (action: PassAction)
        requires
            self.wf(),
        ensures
            is_next_pass_action(self@, action),
    {
        match &self.stage {
            Stage::LookNext => {
                if self.next == self.local.len() {
                    return PassAction::Finish;
                }
                let local: LocalSave = self.local_save();
                match remote_for_slot(&self.remote, local.slot) {
                    Some(file) => PassAction::Download { local, file: file.clone() },
                    None => PassAction::BackupLocal { local, source: BackupSource::LocalFirstSync },
                }
            },
            Stage::KeepInvalidNext { raw, .. } => PassAction::BackupRemote {
                local: self.local_save(),
                file: self.remote_file(),
                bytes: to_vec(raw),
                source: BackupSource::SteamInvalid,
            },
            Stage::BackupNext { raw, plan, .. } => match backup_sources(plan.step) {
                Some((of_local, of_remote)) => PassAction::BackupBoth {
                    local: self.local_save(),
                    file: self.remote_file(),
                    bytes: to_vec(raw),
                    of_local,
                    of_remote,
                },
                None => PassAction::Settle,
            },
            Stage::TransferNext { raw, copy, plan } => {
                let local: LocalSave = self.local_save();
                let file: CloudFile = self.remote_file();
                match plan.step {
                    SlotStep::Pull { queued } => PassAction::Pull {
                        local,
                        file,
                        bytes: pull_bytes(copy, queued),
                    },
                    _ => PassAction::Push {
                        local,
                        target: PushTarget::Over { file, bytes: to_vec(raw) },
                    },
                }
            },
            Stage::SettleNext { .. } => PassAction::Settle,
            Stage::Failed(error) => PassAction::Failed(*error),
        }
    }

    /// What is planned for the next save.
    pub fn plan(&self) -> (plan: Option<SlotPlan>)
        ensures
            plan == plan_of(self@),
    {
        match &self.stage {
            Stage::BackupNext { plan, .. } => Some(*plan),
            Stage::TransferNext { plan, .. } => Some(*plan),
            Stage::SettleNext { plan, .. } => Some(*plan),
            _ => None,
        }
    }

    /// Steam's copy of the next save.
    pub fn copy(&self) -> (copy: Option<&RemoteCopy>)
        ensures
            match copy {
                Some(copy) => copy_at(self@) == Some(copy@),
                None => copy_at(self@) is None,
            },
    {
        match &self.stage {
            Stage::BackupNext { copy, .. } => Some(copy),
            Stage::TransferNext { copy, .. } => Some(copy),
            Stage::SettleNext { copy, .. } => Some(copy),
            _ => None,
        }
    }

    /// The last common version of a slot.
    pub fn base(&self, slot: u8) -> (base: Option<&str>)
        ensures
            match base {
                Some(base) => base_of(self@.run.state.files, slot) == Some(base@),
                None => base_of(self@.run.state.files, slot) is None,
            },
    {
        match prior_entry(&self.run.state, slot) {
            Some(entry) => Some(entry.base_sha256.as_str()),
            None => None,
        }
    }

    /// The save that Steam does not have has been backed up: the user decides about its slot.
    pub fn local_backed_up(self) -> (next: SyncPass)
        requires
            self.wf(),
            self@.stage is LookNext,
            in_progress(self@),
            counterpart(self@) is None,
        ensures
            next.wf(),
            next@ == pass_without_remote(self@),
    {
        let total: usize = self.local.len();
        assert(self.next < total);
        let save: LocalSave = self.local_save();
        let SyncPass { local, remote, allow_upload, next, stage, run } = self;
        let mut run: SyncRun = run;
        run.missing_remote(&save);
        SyncPass { local, remote, allow_upload, next: next + 1, stage, run }
    }

    /// Steam's save of the next slot has been downloaded.
    pub fn downloaded(self, raw: Vec<u8>, replacement_allowed: bool) -> (next: SyncPass)
        requires
            self.wf(),
            self@.stage is LookNext,
            in_progress(self@),
            counterpart(self@) is Some,
        ensures
            next.wf(),
            next@ == (PassView {
                stage: behind_download(self@, raw@, replacement_allowed),
                ..self@
            }),
    {
        let slot: u8 = self.local_save().slot;
        let copy: Result<RemoteCopy, EngineError> = evaluate_remote(
            &raw,
            &self.remote_file(),
            slot,
        );
        self.evaluated(raw, copy, replacement_allowed)
    }

    /// Steam's save of the next slot has been evaluated.
    fn evaluated(
        self,
        raw: Vec<u8>,
        copy: Result<RemoteCopy, EngineError>,
        replacement_allowed: bool,
    ) -> (next: SyncPass)
        requires
            self.wf(),
            in_progress(self@),
            counterpart(self@) is Some,
        ensures
            next.wf(),
            next@ == (PassView {
                stage: behind_copy(
                    self@,
                    raw@,
                    match copy {
                        Ok(copy) => Ok(copy@),
                        Err(error) => Err(error),
                    },
                    replacement_allowed,
                ),
                ..self@
            }),
    {
        let stage: Stage = match copy {
            Err(error) => match error {
                EngineError::InvalidRemote { .. } => Stage::KeepInvalidNext { raw, error },
                _ => Stage::Failed(error),
            },
            Ok(copy) => {
                let plan: SlotPlan = plan_slot(
                    &self.run.state,
                    &self.local_save(),
                    &self.remote_file(),
                    &copy,
                    self.allow_upload,
                    replacement_allowed,
                );
                Self::stage_of_plan(raw, copy, plan)
            },
        };
        self.at(stage)
    }

    /// What a plan comes to.
    fn stage_of_plan(raw: Vec<u8>, copy: RemoteCopy, plan: SlotPlan) -> (stage: Stage)
        ensures
            stage@ == behind_plan(raw@, copy@, plan),
    {
        match plan.step {
            SlotStep::Push => Stage::TransferNext { raw, copy, plan },
            SlotStep::Pull { .. } => Stage::TransferNext { raw, copy, plan },
            _ => if backup_sources(plan.step).is_some() {
                Stage::BackupNext { raw, copy, plan }
            } else {
                Stage::SettleNext { copy, plan }
            },
        }
    }

    /// The synchronization at another stage with the next save.
    fn at(self, stage: Stage) -> (next: SyncPass)
        requires
            self.wf(),
            in_progress(self@),
            counterpart(self@) is Some,
            match stage {
                Stage::BackupNext { plan, .. } => backups_for(plan.step) is Some,
                Stage::TransferNext { plan, .. } => plan.step is Push || plan.step is Pull,
                _ => true,
            },
        ensures
            next.wf(),
            next@ == (PassView { stage: stage@, ..self@ }),
    {
        let SyncPass { local, remote, allow_upload, next, stage: _, run } = self;
        SyncPass { local, remote, allow_upload, next, stage, run }
    }

    /// A backup that was asked for behind the download has been made. What is no save ends the
    /// synchronization; else the user decides about the slot.
    pub fn backed_up(self) -> (next: SyncPass)
        requires
            self.wf(),
            self@.stage is KeepInvalidNext || self@.stage is BackupNext,
        ensures
            next.wf(),
            next@ == pass_backed_up(self@),
    {
        let SyncPass { local, remote, allow_upload, next, stage, run } = self;
        let stage: Stage = match stage {
            Stage::KeepInvalidNext { error, .. } => Stage::Failed(error),
            Stage::BackupNext { copy, plan, .. } => Stage::SettleNext { copy, plan },
            stage => stage,
        };
        SyncPass { local, remote, allow_upload, next, stage, run }
    }

    /// The transfer that was asked for has been made; only the outcome is to be put down.
    fn transferred(self) -> (next: SyncPass)
        requires
            self.wf(),
            self@.stage is TransferNext,
        ensures
            next.wf(),
            next@ == pass_transferred(self@, self@.run.state),
    {
        let SyncPass { local, remote, allow_upload, next, stage, run } = self;
        let stage: Stage = match stage {
            Stage::TransferNext { copy, plan, .. } => Stage::SettleNext { copy, plan },
            stage => stage,
        };
        SyncPass { local, remote, allow_upload, next, stage, run }
    }

    /// The next slot's save has been carried to Steam, as it was asked for.
    pub fn pushed(self, push: &Push, now: u64) -> (next: SyncPass)
        requires
            self.wf(),
            push.wf(),
            is_planned_push(self@, push@.local, push@.target),
            push@.stage is Settled,
        ensures
            next.wf(),
            next@ == pass_transferred(self@, settled_push(self@.run.state, push@, now)),
    {
        let mut next: SyncPass = self.transferred();
        push.settle(&mut next.run.state, now);
        next
    }

    /// The next slot's save has been replaced by Steam's version, as it was asked for.
    pub fn pulled(self, pull: &Pull, now: u64) -> (next: SyncPass)
        requires
            self.wf(),
            pull.wf(),
            is_planned_pull(self@, pull@.local, pull@.remote, pull@.bytes),
            pull@.stage is Settled,
        ensures
            next.wf(),
            next@ == pass_transferred(self@, settled_pull(self@.run.state, pull@, now)),
    {
        let mut next: SyncPass = self.transferred();
        pull.settle(&mut next.run.state, now);
        next
    }

    /// What was planned for the next save is put down.
    pub fn settle(self, now: u64) -> (next: SyncPass)
        requires
            self.wf(),
            self@.stage is SettleNext,
        ensures
            next.wf(),
            next@ == pass_settled(self@, now),
    {
        let total: usize = self.local.len();
        assert(self.next < total);
        let of_local: LocalSave = self.local_save();
        let of_remote: CloudFile = self.remote_file();
        let SyncPass { local, remote, allow_upload, next, stage, run } = self;
        let mut run: SyncRun = run;
        if let Stage::SettleNext { copy, plan } = stage {
            run.settle(plan, &of_local, &of_remote, &copy.identity, now);
        }
        SyncPass { local, remote, allow_upload, next: next + 1, stage: Stage::LookNext, run }
    }

    /// The state, what waits for the user, and how many uploads wait.
    pub fn finish(self, change_number: u64) -> (run: SyncRun)
        requires
            self.wf(),
            self@.stage is LookNext,
            self@.next == self@.local.len(),
        ensures
            run@ == run_finished(self@.run, change_number),
    {
        let mut run: SyncRun = self.run;
        run.finish(change_number);
        run
    }
}

/// A synchronization that the user did not ask for uploads nothing, whatever the slots hold.
pub proof fn automatic_sync_never_uploads(
    trigger: Seq<char>,
    state: SyncView,
    local: LocalView,
    remote: CloudView,
    copy: CopyView,
    replacement_allowed: bool,
)
    requires
        trigger != "manual"@,
    ensures
        planned(state, local, remote, copy, may_upload(trigger), replacement_allowed).step
            !is Push,
{
}

/// An upload takes place only where the device's save or its encoding on Steam is what Steam
/// lacks, and never where Steam changed to something else since the last common version.
pub proof fn upload_never_overwrites_changes(
    state: SyncView,
    local: LocalView,
    remote: CloudView,
    copy: CopyView,
    allow_upload: bool,
    replacement_allowed: bool,
)
    ensures
        planned(state, local, remote, copy, allow_upload, replacement_allowed).step is Push
            ==> allow_upload && base_of(state.files, local.slot) is Some && (base_of(
            state.files,
            local.slot,
        ) == Some(copy.identity.sha256) || local.identity.sha256 == copy.identity.sha256),
{
}

/// A save on the device is replaced only while that is allowed, and only by a version that the
/// user queued or that changed on Steam alone.
pub proof fn replacement_only_when_allowed(
    state: SyncView,
    local: LocalView,
    remote: CloudView,
    copy: CopyView,
    allow_upload: bool,
    replacement_allowed: bool,
)
    ensures
        planned(state, local, remote, copy, allow_upload, replacement_allowed).step matches
            SlotStep::Pull { queued } ==> replacement_allowed && (if queued {
            state.pending_remote_pulls.dom().contains(local.slot) && still_queued(
                state.pending_remote_pulls[local.slot],
                remote,
                copy.identity,
            )
        } else {
            base_of(state.files, local.slot) == Some(local.identity.sha256)
        }),
{
}

/// A slot that was never synchronized, and one in which both sides changed, is left to the
/// user: both versions are backed up, nothing is transferred, and the last common version
/// stays.
pub proof fn open_slots_ask_the_user(
    run: RunView,
    local: LocalView,
    remote: CloudView,
    copy: CopyView,
    allow_upload: bool,
    replacement_allowed: bool,
    now: u64,
)
    requires
        !run.state.pending_remote_pulls.dom().contains(local.slot),
        ({
            let base = base_of(run.state.files, local.slot);
            base is None || (base != Some(local.identity.sha256) && base != Some(
                copy.identity.sha256,
            ) && local.identity.sha256 != copy.identity.sha256)
        }),
    ensures
        ({
            let plan = planned(
                run.state,
                local,
                remote,
                copy,
                allow_upload,
                replacement_allowed,
            );
            let after = settled(run, plan, local, remote, copy.identity, now);
            &&& plan.step is Choose
            &&& backups_for(plan.step) is Some
            &&& after.state == run.state
            &&& after.pending.len() == run.pending.len() + 1
            &&& after.pending.last().slot == local.slot
            &&& after.uploads_waiting == run.uploads_waiting
        }),
{
}

/// Behind a download a synchronization uploads only where that is allowed and replaces a save
/// only where that is allowed. It leaves a slot to the user without a backup only where a
/// replacement waits for the next start, and keeps the exact bytes of what is no save.
pub proof fn passes_back_up_before_they_ask(
    pass: PassView,
    raw: Seq<u8>,
    replacement_allowed: bool,
)
    ensures
        match behind_download(pass, raw, replacement_allowed) {
            PassStage::LookNext => false,
            PassStage::KeepInvalidNext { raw: kept, .. } => kept == raw && canonical_form(
                raw,
            ) is Err,
            PassStage::BackupNext { raw: kept, plan, .. } => kept == raw && plan.step is Choose,
            PassStage::TransferNext { plan, .. } => match plan.step {
                SlotStep::Push => pass.allow_upload,
                SlotStep::Pull { .. } => replacement_allowed,
                _ => false,
            },
            PassStage::SettleNext { plan, .. } => match plan.step {
                SlotStep::Push => false,
                SlotStep::Pull { .. } => false,
                SlotStep::Choose(kind) => kind == ChoiceKind::RestartRequired
                    && !replacement_allowed,
                _ => true,
            },
            PassStage::Failed(_) => canonical_form(raw) is Ok,
        },
{
}

/// Without a transfer the last common version of a slot advances only to a version that both
/// sides have.
pub proof fn base_advances_to_common_version(
    run: RunView,
    local: LocalView,
    remote: CloudView,
    copy: CopyView,
    allow_upload: bool,
    replacement_allowed: bool,
    now: u64,
)
    ensures
        ({
            let plan = planned(
                run.state,
                local,
                remote,
                copy,
                allow_upload,
                replacement_allowed,
            );
            let after = settled(run, plan, local, remote, copy.identity, now);
            after.state.files != run.state.files ==> plan.step is AdvanceBase
                && local.identity.sha256 == copy.identity.sha256 && base_of(
                after.state.files,
                local.slot,
            ) == Some(local.identity.sha256)
        }),
{
    update_sets_base(
        run.state.files,
        synced_entry(local, remote, copy.identity, now),
    );
}

/// The step of a slot leaves the other slots alone: what was last common to both sides there,
/// what is queued for them and what the user is asked about them stays, unless Steam's file had
/// the name of another slot's.
pub proof fn slots_are_settled_one_by_one(
    run: RunView,
    plan: SlotPlan,
    local: LocalView,
    remote: CloudView,
    identity: IdentityView,
    now: u64,
    other: u8,
)
    requires
        other != local.slot,
        forall|i: int|
            0 <= i < run.state.files.len() && (#[trigger] run.state.files[i]).slot == other
                ==> run.state.files[i].remote_name != remote.request_name,
    ensures
        ({
            let after = settled(run, plan, local, remote, identity, now);
            &&& base_of(after.state.files, other) == base_of(run.state.files, other)
            &&& after.state.pending_remote_pulls.dom().contains(other)
                == run.state.pending_remote_pulls.dom().contains(other)
            &&& run.state.pending_remote_pulls.dom().contains(other)
                ==> after.state.pending_remote_pulls[other]
                == run.state.pending_remote_pulls[other]
            &&& run.pending.len() <= after.pending.len()
            &&& after.pending.take(run.pending.len() as int) == run.pending
        }),
{
    other_slots_stay(run.state.files, synced_entry(local, remote, identity, now), other);
    let after = settled(run, plan, local, remote, identity, now);
    assert(after.pending.take(run.pending.len() as int) =~= run.pending);
}

/// The normalized form of Steam's copy is a canonical save of the Repentance generation,
/// however it came.
pub proof fn copies_are_compared_in_one_layout(raw: Seq<u8>, file: CloudView, slot: u8)
    ensures
        copy_of(raw, file, slot) matches Ok(copy) ==> is_canonical(copy.canonical) && is_canonical(
            copy.normalized,
        ) && !is_rep_plus(copy.normalized),
{
    canonical_form_is_stable(raw);
    if let Ok((canonical, _)) = canonical_form(raw) {
        conversions_reach_their_generation(canonical);
    }
}

} // verus!
