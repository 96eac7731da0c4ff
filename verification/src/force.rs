//! Carrying out what the user decided about a slot, step by step: where Steam has a save of the
//! slot, both versions are backed up before either is given up.
use vstd::prelude::*;

use crate::bytes::to_vec;
use crate::cloud::{CloudFile, CloudView};
use crate::engine::{remote_for_slot, remote_of_slot, EngineError};
use crate::exchange::{awaits_choice, new_name, new_remote_name};
use crate::model::{BackupSource, FileStateView, LocalSave, LocalView, SyncState, SyncView};
use crate::order::views;
use crate::push::{settled_push, Push, PushTarget, TargetView};
use crate::status::{resolved_status, ChoiceView, PendingChoice, StatusView};
use crate::sync_state::{pull_of, queue_remote_pull};

verus! {

/// What a decision of the user comes to.
#[derive(Debug)]
pub enum ForceStep {
    /// Both versions are backed up, and the device's is uploaded over Steam's.
    PushOver(CloudFile),
    /// Both versions are backed up, and Steam's waits for the next start of the game.
    QueuePull(CloudFile),
    /// The device's version is uploaded as a new file.
    PushNew(String),
}

/// What a `ForceStep` holds.
pub enum StepView {
    PushOver(CloudView),
    QueuePull(CloudView),
    PushNew(Seq<char>),
}

impl View for ForceStep {
    type V = StepView;

    open spec fn view(&self) -> StepView {
        match self {
            ForceStep::PushOver(file) => StepView::PushOver(file@),
            ForceStep::QueuePull(file) => StepView::QueuePull(file@),
            ForceStep::PushNew(remote_name) => StepView::PushNew(remote_name@),
        }
    }
}

/// What a decision for one of the two sides comes to, where Steam has `remote` and a new file
/// would be called `remote_name`.
pub open spec fn step_forced(
    remote: Option<CloudView>,
    use_local: bool,
    remote_name: Seq<char>,
) -> Result<StepView, EngineError> {
    match (remote, use_local) {
        (Some(file), true) => Ok(StepView::PushOver(file)),
        (Some(file), false) => Ok(StepView::QueuePull(file)),
        (None, true) => Ok(StepView::PushNew(remote_name)),
        (None, false) => Err(EngineError::NoRemoteToPull),
    }
}

/// What a decision of the user comes to.
pub fn force_step(remote: Option<&CloudFile>, use_local: bool, remote_name: String) -> (result:
    Result<ForceStep, EngineError>)
    ensures
        step_forced(
            match remote {
                Some(file) => Some(file@),
                None => None,
            },
            use_local,
            remote_name@,
        ) == match result {
            Ok(step) => Ok::<StepView, EngineError>(step@),
            Err(error) => Err(error),
        },
{
    match (remote, use_local) {
        (Some(file), true) => Ok(ForceStep::PushOver(file.clone())),
        (Some(file), false) => Ok(ForceStep::QueuePull(file.clone())),
        (None, true) => Ok(ForceStep::PushNew(remote_name)),
        (None, false) => Err(EngineError::NoRemoteToPull),
    }
}

/// As what the device's save and Steam's are backed up ahead of a decision.
pub open spec fn backups_ahead_of(step: StepView) -> Option<(BackupSource, BackupSource)> {
    match step {
        StepView::PushNew(_) => None,
        _ => Some((BackupSource::LocalBeforeForce, BackupSource::SteamBeforeForce)),
    }
}

/// What became of what was asked for.
#[derive(Debug)]
pub enum ForceEvent {
    /// Steam's file was downloaded.
    Downloaded(Vec<u8>),
    /// The backup was made.
    BackedUp,
}

/// What is asked for next.
#[derive(Debug)]
pub enum ForceAction {
    /// This file is downloaded.
    Download(CloudFile),
    /// The save on the device is backed up.
    BackupLocal(BackupSource),
    /// The bytes of this file are backed up.
    BackupRemote { source: BackupSource, file: CloudFile, bytes: Vec<u8> },
    /// The save on the device is carried to Steam.
    Push(PushTarget),
    /// Steam's version is queued.
    Queue,
}

#[derive(Debug)]
enum Stage {
    DownloadNext,
    BackupLocalNext(Vec<u8>),
    BackupRemoteNext(Vec<u8>),
    Ready(Vec<u8>),
}

/// How far a decision has been carried out.
pub enum ForceStage {
    /// Steam's save is to be downloaded.
    DownloadNext,
    /// Steam has these bytes; the device's save is to be backed up.
    BackupLocalNext(Seq<u8>),
    /// The device's save is backed up; Steam's bytes are to be.
    BackupRemoteNext(Seq<u8>),
    /// What was decided can be done. Steam has these bytes, or none in the case of a new file.
    Ready(Seq<u8>),
}

/// A decision that is being carried out.
#[derive(Debug)]
pub struct Force {
    local: LocalSave,
    step: ForceStep,
    stage: Stage,
}

/// What a `Force` holds.
pub struct ForceView {
    pub local: LocalView,
    pub step: StepView,
    pub stage: ForceStage,
}

impl View for Force {
    type V = ForceView;

    closed spec fn view(&self) -> ForceView {
        ForceView {
            local: self.local@,
            step: self.step@,
            stage: match self.stage {
                Stage::DownloadNext => ForceStage::DownloadNext,
                Stage::BackupLocalNext(raw) => ForceStage::BackupLocalNext(raw@),
                Stage::BackupRemoteNext(raw) => ForceStage::BackupRemoteNext(raw@),
                Stage::Ready(raw) => ForceStage::Ready(raw@),
            },
        }
    }
}

/// How a decision begins: a new file gives no version up.
pub open spec fn first_stage(step: StepView) -> ForceStage {
    match step {
        StepView::PushNew(_) => ForceStage::Ready(seq![]),
        _ => ForceStage::DownloadNext,
    }
}

/// How far a decision is carried out behind an event. An event that does not answer what was
/// asked for changes nothing.
pub open spec fn next_force(stage: ForceStage, event: ForceEvent) -> ForceStage {
    match (stage, event) {
        (ForceStage::DownloadNext, ForceEvent::Downloaded(bytes)) => ForceStage::BackupLocalNext(
            bytes@,
        ),
        (ForceStage::BackupLocalNext(raw), ForceEvent::BackedUp) => ForceStage::BackupRemoteNext(
            raw,
        ),
        (ForceStage::BackupRemoteNext(raw), ForceEvent::BackedUp) => ForceStage::Ready(raw),
        (stage, _) => stage,
    }
}

/// What the device's save is carried to, where that was decided and Steam had `raw`.
pub open spec fn forced_target(step: StepView, raw: Seq<u8>) -> Option<TargetView> {
    match step {
        StepView::PushOver(file) => Some(TargetView::Over { file, bytes: raw }),
        StepView::PushNew(remote_name) => Some(TargetView::New { remote_name }),
        StepView::QueuePull(_) => None,
    }
}

/// The file on Steam that a decision is about.
pub open spec fn file_of(step: StepView) -> Option<CloudView> {
    match step {
        StepView::PushOver(file) => Some(file),
        StepView::QueuePull(file) => Some(file),
        StepView::PushNew(_) => None,
    }
}

/// Whether an action is what is asked for.
pub open spec fn is_next_force_action(force: ForceView, action: ForceAction) -> bool {
    match (force.stage, action) {
        (ForceStage::DownloadNext, ForceAction::Download(file)) => file_of(force.step) == Some(
            file@,
        ),
        (ForceStage::BackupLocalNext(_), ForceAction::BackupLocal(source)) => backups_ahead_of(
            force.step,
        ) matches Some((of_local, _)) && source == of_local,
        (
            ForceStage::BackupRemoteNext(raw),
            ForceAction::BackupRemote { source, file, bytes },
        ) => (backups_ahead_of(force.step) matches Some((_, of_remote)) && source == of_remote)
            && file_of(force.step) == Some(file@) && bytes@ == raw,
        (ForceStage::Ready(raw), ForceAction::Push(target)) => forced_target(force.step, raw)
            == Some(target@),
        (ForceStage::Ready(_), ForceAction::Queue) => force.step is QueuePull,
        _ => false,
    }
}

/// The state behind the decision for Steam's version.
pub open spec fn queued_state(state: SyncView, force: ForceView, now: u64) -> SyncView {
    match force.step {
        StepView::QueuePull(file) => SyncView {
            pending_remote_pulls: state.pending_remote_pulls.insert(
                force.local.slot,
                pull_of(force.local.slot, file, now),
            ),
            ..state
        },
        _ => state,
    }
}

/// How the user's decision about a save of the device begins, where Steam lists `listed`.
pub open spec fn decision_begun(
    local: LocalView,
    listed: Seq<CloudView>,
    use_local: bool,
    choices: Seq<ChoiceView>,
    files: Seq<FileStateView>,
) -> Result<ForceView, EngineError> {
    match step_forced(
        remote_of_slot(listed, local.slot),
        use_local,
        new_name(choices, files, local),
    ) {
        Ok(step) => Ok(ForceView { local, step, stage: first_stage(step) }),
        Err(error) => Err(error),
    }
}

impl Force {
    /// Whether the decision is one that began with `new`.
    pub closed spec fn wf(&self) -> bool {
        self.step is PushNew ==> self.stage is Ready
    }

    /// What was decided about a save of the device, where Steam lists `listed`.
    pub fn new(
        local: LocalSave,
        listed: &Vec<CloudFile>,
        use_local: bool,
        choices: &Vec<PendingChoice>,
        state: &SyncState,
    ) -> (result: Result<Force, EngineError>)
        ensures
            ({
                let begun = decision_begun(
                    local@,
                    views(listed@),
                    use_local,
                    views(choices@),
                    state@.files,
                );
                match result {
                    Ok(force) => force.wf() && begun == Ok::<ForceView, EngineError>(force@),
                    Err(error) => begun == Err::<ForceView, EngineError>(error),
                }
            }),
    {
        let remote_name: String = new_remote_name(choices, state, &local);
        let remote: Option<&CloudFile> = remote_for_slot(listed, local.slot);
        match force_step(remote, use_local, remote_name) {
            Ok(step) => {
                let stage: Stage = match &step {
                    ForceStep::PushNew(_) => Stage::Ready(Vec::new()),
                    _ => Stage::DownloadNext,
                };
                let force: Force = Force { local, step, stage };
                assert(force@.stage == first_stage(force@.step)) by {
                    if let Stage::Ready(raw) = force.stage {
                        assert(raw@ =~= seq![]);
                    }
                }
                Ok(force)
            },
            Err(error) => Err(error),
        }
    }

    /// What is asked for next.
    pub fn action(&self) -> (action: ForceAction)
        requires
            self.wf(),
        ensures
            is_next_force_action(self@, action),
    {
        match (&self.stage, &self.step) {
            (Stage::Ready(raw), ForceStep::PushOver(file)) => ForceAction::Push(
                PushTarget::Over { file: file.clone(), bytes: to_vec(raw) },
            ),
            (_, ForceStep::PushNew(remote_name)) => ForceAction::Push(
                PushTarget::New { remote_name: remote_name.clone() },
            ),
            (Stage::Ready(_), ForceStep::QueuePull(_)) => ForceAction::Queue,
            (stage, ForceStep::PushOver(file)) => Self::backing_up(stage, file),
            (stage, ForceStep::QueuePull(file)) => Self::backing_up(stage, file),
        }
    }

    /// What is asked for ahead of a decision that gives a version up.
    fn backing_up(stage: &Stage, file: &CloudFile) -> (action: ForceAction)
        requires
            stage !is Ready,
        ensures
            match stage {
                Stage::DownloadNext => action matches ForceAction::Download(of) && of@ == file@,
                Stage::BackupLocalNext(_) => action == ForceAction::BackupLocal(
                    BackupSource::LocalBeforeForce,
                ),
                Stage::BackupRemoteNext(raw) => action matches ForceAction::BackupRemote {
                    source,
                    file: of,
                    bytes,
                } && source == BackupSource::SteamBeforeForce && of@ == file@ && bytes@ == raw@,
                Stage::Ready(_) => false,
            },
    {
        match stage {
            Stage::BackupLocalNext(_) => ForceAction::BackupLocal(BackupSource::LocalBeforeForce),
            Stage::BackupRemoteNext(raw) => ForceAction::BackupRemote {
                source: BackupSource::SteamBeforeForce,
                file: file.clone(),
                bytes: to_vec(raw),
            },
            _ => ForceAction::Download(file.clone()),
        }
    }

    /// The decision behind an event.
    pub fn step(self, event: ForceEvent) -> (next: Force)
        requires
            self.wf(),
        ensures
            next.wf(),
            next@ == (ForceView { stage: next_force(self@.stage, event), ..self@ }),
    {
        let Force { local, step, stage } = self;
        let stage: Stage = match (stage, event) {
            (Stage::DownloadNext, ForceEvent::Downloaded(bytes)) => Stage::BackupLocalNext(bytes),
            (Stage::BackupLocalNext(raw), ForceEvent::BackedUp) => Stage::BackupRemoteNext(raw),
            (Stage::BackupRemoteNext(raw), ForceEvent::BackedUp) => Stage::Ready(raw),
            (stage, _) => stage,
        };
        Force { local, step, stage }
    }

    /// The device's save has been carried to Steam, as it was asked for.
    pub fn pushed(&self, push: &Push, state: &mut SyncState, now: u64)
        requires
            self.wf(),
            push.wf(),
            push@.local == self@.local,
            self@.stage matches ForceStage::Ready(raw) && forced_target(self@.step, raw) == Some(
                push@.target,
            ),
            push@.stage is Settled,
        ensures
            final(state)@ == settled_push(old(state)@, push@, now),
    {
        push.settle(state, now);
    }

    /// Steam's version is queued, as it was asked for.
    pub fn queue(&self, state: &mut SyncState, now: u64)
        requires
            self.wf(),
            self@.stage is Ready,
            self@.step is QueuePull,
        ensures
            final(state)@ == queued_state(old(state)@, self@, now),
    {
        if let ForceStep::QueuePull(file) = &self.step {
            queue_remote_pull(state, self.local.slot, file, now);
        }
    }
}

/// How far a decision is carried out behind all of the events.
pub open spec fn force_after(stage: ForceStage, events: Seq<ForceEvent>) -> ForceStage
    decreases events.len(),
{
    if events.len() == 0 {
        stage
    } else {
        next_force(force_after(stage, events.drop_last()), events.last())
    }
}

/// Whether the event at `at` says that the device's save was backed up while Steam had `raw`.
pub open spec fn local_backed_up_at(events: Seq<ForceEvent>, raw: Seq<u8>, at: int) -> bool {
    0 <= at < events.len() && events[at] is BackedUp && force_after(
        ForceStage::DownloadNext,
        events.take(at),
    ) == ForceStage::BackupLocalNext(raw)
}

/// Whether the event at `at` says that `raw`, which Steam had, was backed up.
pub open spec fn remote_backed_up_at(events: Seq<ForceEvent>, raw: Seq<u8>, at: int) -> bool {
    0 <= at < events.len() && events[at] is BackedUp && force_after(
        ForceStage::DownloadNext,
        events.take(at),
    ) == ForceStage::BackupRemoteNext(raw)
}

proof fn local_is_backed_up(events: Seq<ForceEvent>, raw: Seq<u8>)
    requires
        force_after(ForceStage::DownloadNext, events) == ForceStage::BackupRemoteNext(raw),
    ensures
        exists|first: int| local_backed_up_at(events, raw, first),
    decreases events.len(),
{
    let fewer = events.drop_last();
    let at = events.len() - 1;
    assert(events.take(at) =~= fewer);
    if force_after(ForceStage::DownloadNext, fewer) == ForceStage::BackupRemoteNext(raw) {
        local_is_backed_up(fewer, raw);
        let first = choose|first: int| local_backed_up_at(fewer, raw, first);
        assert(events.take(first) =~= fewer.take(first));
        assert(local_backed_up_at(events, raw, first));
    } else {
        assert(local_backed_up_at(events, raw, at));
    }
}

/// Where Steam has a save of the slot, whatever was decided is done only behind two backups: of
/// the device's save, and then of the bytes that Steam had.
pub proof fn both_versions_are_backed_up_first(events: Seq<ForceEvent>, raw: Seq<u8>)
    requires
        force_after(ForceStage::DownloadNext, events) == ForceStage::Ready(raw),
    ensures
        exists|first: int, second: int|
            first < second && #[trigger] local_backed_up_at(events, raw, first)
                && #[trigger] remote_backed_up_at(events, raw, second),
    decreases events.len(),
{
    let fewer = events.drop_last();
    let at = events.len() - 1;
    assert(events.take(at) =~= fewer);
    if force_after(ForceStage::DownloadNext, fewer) == ForceStage::Ready(raw) {
        both_versions_are_backed_up_first(fewer, raw);
        let (first, second) = choose|first: int, second: int|
            first < second && #[trigger] local_backed_up_at(fewer, raw, first)
                && #[trigger] remote_backed_up_at(fewer, raw, second);
        assert(events.take(first) =~= fewer.take(first));
        assert(events.take(second) =~= fewer.take(second));
        assert(local_backed_up_at(events, raw, first));
        assert(remote_backed_up_at(events, raw, second));
    } else {
        local_is_backed_up(fewer, raw);
        let first = choose|first: int| local_backed_up_at(fewer, raw, first);
        assert(events.take(first) =~= fewer.take(first));
        assert(local_backed_up_at(events, raw, first));
        assert(remote_backed_up_at(events, raw, at));
    }
}

/// The decision for Steam's version uploads nothing and leaves the last common versions as they
/// are. The version is queued under its name and SHA-1, the slot waits for no choice any more,
/// and the game is to be started anew.
pub proof fn steam_choice_waits_for_the_next_start(
    force: ForceView,
    remote: Option<CloudView>,
    remote_name: Seq<char>,
    state: SyncView,
    status: StatusView,
    now: u64,
)
    requires
        step_forced(remote, false, remote_name) == Ok::<StepView, EngineError>(force.step),
    ensures
        forall|action: ForceAction| is_next_force_action(force, action) ==> action !is Push,
        ({
            let slot = force.local.slot;
            let queued = queued_state(state, force, now);
            let shown = resolved_status(status, slot, false);
            &&& remote matches Some(file) && queued.pending_remote_pulls.dom().contains(slot)
                && queued.pending_remote_pulls[slot] == pull_of(slot, file, now)
            &&& queued.files == state.files
            &&& !awaits_choice(shown.pending_choices, slot)
            &&& shown.phase == "restart_required"@
        }),
{
    broadcast use vstd::seq_lib::group_filter_ensures;

    let slot = force.local.slot;
    let kept = resolved_status(status, slot, false).pending_choices;
    assert forall|i: int| 0 <= i < kept.len() implies (#[trigger] kept[i]).slot != slot by {
        assert(kept.contains(kept[i]));
    }
}

} // verus!
