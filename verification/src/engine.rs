//! The steps of a synchronization: which saves take part, what is done with each slot, and what
//! counts as having been done.
use std::collections::BTreeSet;
use vstd::prelude::*;

use crate::cloud::{CloudFile, CloudView};
use crate::isaac_format::SaveError;
use crate::model::{FileIdentity, IdentityView, LocalSave, LocalView};
use crate::order::views;
use crate::status::{ChoiceView, PendingChoice, SaveSummary, SummaryView};
use crate::text::{decimal, same_text, to_decimal};

verus! {

/// Why a synchronization stops.
#[derive(Debug, Clone, Copy, PartialEq, Eq, Structural)]
pub enum EngineError {
    /// No save takes part.
    NoLocalSaves,
    /// The saves were not looked for before the game started.
    SnapshotUnavailable,
    /// The slot does not wait for the user.
    NotPending,
    /// The device has no save of the slot.
    LocalSlotNotFound,
    /// Steam has no save of the slot.
    NoRemoteToPull,
    /// Steam has a save that it did not have before.
    RemoteCreated,
    /// Steam no longer has the save.
    RemoteDisappeared,
    /// Steam has another save than before.
    RemoteChanged,
    /// The save on the device changed during the upload.
    LocalChanged,
    /// The save on the device has other contents than the upload.
    LocalChangedSemantically,
    /// The game is already running.
    ReplacementNotAllowed,
    /// The save could not be replaced.
    WriteFailed,
    /// The replaced save could not be read.
    Unverifiable,
    /// The replaced save is not what was written.
    VerificationFailed,
    /// Two files on the device belong to the same slot.
    DuplicateSlot(u8),
    /// The slot is excluded from synchronization.
    Excluded(u8),
    /// Steam's copy is no save.
    InvalidRemote { slot: u8, error: SaveError },
    /// A save cannot be brought into the layout of the other generation.
    Conversion(SaveError),
}

impl EngineError {
    /// The message for the user, outermost reason first.
    pub open spec fn text(self) -> Seq<char> {
        match self {
            EngineError::NoLocalSaves =>
                "no matching Isaac persistent save files were found inside the app sandbox"@,
            EngineError::SnapshotUnavailable =>
                "early preflight save snapshot unavailable"@,
            EngineError::NotPending =>
                "save slot does not have a pending conflict or first-sync choice"@,
            EngineError::LocalSlotNotFound =>
                "local save slot not found"@,
            EngineError::NoRemoteToPull =>
                "Steam save slot not found; there is no remote version to pull"@,
            EngineError::RemoteCreated =>
                "Steam created this save while the upload was being prepared; synchronize again"@,
            EngineError::RemoteDisappeared =>
                "Steam save disappeared while the upload was being prepared"@,
            EngineError::RemoteChanged =>
                "Steam save changed while the upload was being prepared; synchronize again"@,
            EngineError::LocalChanged =>
                "local save changed during Steam upload"@,
            EngineError::LocalChangedSemantically =>
                "local save changed semantically during Steam upload"@,
            EngineError::ReplacementNotAllowed =>
                "local replacement is only allowed at the prelaunch barrier or after an explicit warning"@,
            EngineError::WriteFailed =>
                "atomic save replacement failed; old save restored"@,
            EngineError::Unverifiable =>
                "could not verify replaced save; old save restored"@,
            EngineError::VerificationFailed =>
                "atomic save replacement verification failed; old save restored"@,
            EngineError::DuplicateSlot(slot) =>
                "multiple local save candidates found for slot "@ + decimal(slot as nat),
            EngineError::Excluded(slot) => "save slot "@ + decimal(slot as nat)
                + " is excluded from sync"@,
            EngineError::InvalidRemote { slot, error } => "Steam save slot "@ + decimal(slot as nat)
                + " is not a valid canonical or iOS LZ4 Repentance save; exact cloud bytes were backed up: "@
                + error.text(),
            EngineError::Conversion(error) => error.text(),
        }
    }

    /// The message for the user, outermost reason first.
    pub fn message(&self) -> (message: String)
        ensures
            message@ == self.text(),
    {
        match self {
            EngineError::NoLocalSaves =>
                "no matching Isaac persistent save files were found inside the app sandbox".to_owned(),
            EngineError::SnapshotUnavailable =>
                "early preflight save snapshot unavailable".to_owned(),
            EngineError::NotPending =>
                "save slot does not have a pending conflict or first-sync choice".to_owned(),
            EngineError::LocalSlotNotFound =>
                "local save slot not found".to_owned(),
            EngineError::NoRemoteToPull =>
                "Steam save slot not found; there is no remote version to pull".to_owned(),
            EngineError::RemoteCreated =>
                "Steam created this save while the upload was being prepared; synchronize again".to_owned(),
            EngineError::RemoteDisappeared =>
                "Steam save disappeared while the upload was being prepared".to_owned(),
            EngineError::RemoteChanged =>
                "Steam save changed while the upload was being prepared; synchronize again".to_owned(),
            EngineError::LocalChanged =>
                "local save changed during Steam upload".to_owned(),
            EngineError::LocalChangedSemantically =>
                "local save changed semantically during Steam upload".to_owned(),
            EngineError::ReplacementNotAllowed =>
                "local replacement is only allowed at the prelaunch barrier or after an explicit warning".to_owned(),
            EngineError::WriteFailed =>
                "atomic save replacement failed; old save restored".to_owned(),
            EngineError::Unverifiable =>
                "could not verify replaced save; old save restored".to_owned(),
            EngineError::VerificationFailed =>
                "atomic save replacement verification failed; old save restored".to_owned(),
            EngineError::DuplicateSlot(slot) => {
                let mut message: String =
                    "multiple local save candidates found for slot ".to_owned();
                message.append(to_decimal(*slot as u64).as_str());
                message
            },
            EngineError::Excluded(slot) => {
                let mut message: String = "save slot ".to_owned();
                message.append(to_decimal(*slot as u64).as_str());
                message.append(" is excluded from sync");
                message
            },
            EngineError::InvalidRemote { slot, error } => {
                let mut message: String = "Steam save slot ".to_owned();
                message.append(to_decimal(*slot as u64).as_str());
                message.append(
                    " is not a valid canonical or iOS LZ4 Repentance save; exact cloud bytes were backed up: ",
                );
                message.append(error.message().as_str());
                message
            },
            EngineError::Conversion(error) => error.message(),
        }
    }
}

/// Whether a synchronization may upload: only the one that the user asks for does.
pub open spec fn may_upload(trigger: Seq<char>) -> bool {
    trigger == "manual"@
}

/// Whether a synchronization may upload.
pub fn upload_allowed(trigger: &str) -> (allowed: bool)
    ensures
        allowed == may_upload(trigger@),
{
    same_text(trigger, "manual")
}

/// The saves on Steam whose slots are not excluded.
pub open spec fn in_scope(remote: Seq<CloudView>, excluded: Set<u8>) -> Seq<CloudView> {
    remote.filter(|file: CloudView| !excluded.contains(file.save.slot))
}

/// The saves on Steam whose slots are not excluded.
pub fn remote_in_scope(remote: &Vec<CloudFile>, excluded: &BTreeSet<u8>) -> (kept: Vec<CloudFile>)
    ensures
        views(kept@) == in_scope(views(remote@), excluded@),
{
    let ghost all = views(remote@);
    let ghost wanted = |file: CloudView| !excluded@.contains(file.save.slot);
    let mut kept: Vec<CloudFile> = Vec::new();
    let mut i: usize = 0;
    proof {
        reveal(Seq::filter);
        assert(views(kept@) =~= all.take(0).filter(wanted));
    }
    while i < remote.len()
        invariant
            i <= remote@.len(),
            all == views(remote@),
            wanted == (|file: CloudView| !excluded@.contains(file.save.slot)),
            views(kept@) == all.take(i as int).filter(wanted),
        decreases remote@.len() - i,
    {
        let ghost held = kept@;
        proof {
            reveal(Seq::filter);
            let upto = all.take(i + 1);
            assert(upto.drop_last() =~= all.take(i as int));
            assert(upto.last() == remote@[i as int]@);
        }
        if !excluded.contains(&remote[i].save.slot) {
            assert(wanted(remote@[i as int]@));
            let file: CloudFile = remote[i].clone();
            kept.push(file);
            assert(views(kept@) =~= views(held).push(remote@[i as int]@));
        }
        i += 1;
    }
    assert(all.take(i as int) =~= all);
    kept
}

/// The saves on the device that take part in a synchronization.
#[derive(Debug, Clone, Copy, PartialEq, Eq, Structural)]
pub enum LocalSource {
    /// Those that were found before the game started.
    Preflight,
    /// All that are found now.
    All,
    /// Those that are found now in the slots that Steam has.
    RemoteSlots,
}

/// Which saves on the device take part.
pub open spec fn source_for(trigger: Seq<char>) -> LocalSource {
    if trigger == "prelaunch"@ {
        LocalSource::Preflight
    } else if may_upload(trigger) {
        LocalSource::All
    } else {
        LocalSource::RemoteSlots
    }
}

/// Which saves on the device take part.
pub fn local_source(trigger: &str) -> (source: LocalSource)
    ensures
        source == source_for(trigger@),
{
    if same_text(trigger, "prelaunch") {
        LocalSource::Preflight
    } else if upload_allowed(trigger) {
        LocalSource::All
    } else {
        LocalSource::RemoteSlots
    }
}

/// Whether Steam has a save of the slot.
pub open spec fn has_slot(remote: Seq<CloudView>, slot: u8) -> bool {
    exists|i: int| 0 <= i < remote.len() && (#[trigger] remote[i]).save.slot == slot
}

/// The slots that Steam has saves of.
pub fn remote_slots(remote: &Vec<CloudFile>) -> (slots: BTreeSet<u8>)
    ensures
        forall|slot: u8| #[trigger] slots@.contains(slot) == has_slot(views(remote@), slot),
{
    let ghost all = views(remote@);
    let mut slots: BTreeSet<u8> = BTreeSet::new();
    let mut i: usize = 0;
    while i < remote.len()
        invariant
            i <= remote@.len(),
            all == views(remote@),
            forall|slot: u8| #[trigger]
                slots@.contains(slot) == exists|k: int|
                    0 <= k < i && (#[trigger] all[k]).save.slot == slot,
        decreases remote@.len() - i,
    {
        let ghost before = slots@;
        assert(all[i as int] == remote@[i as int]@);
        slots.insert(remote[i].save.slot);
        assert forall|slot: u8| #[trigger]
            slots@.contains(slot) == exists|k: int|
                0 <= k < i + 1 && (#[trigger] all[k]).save.slot == slot by {
            assert(slots@.contains(slot) == (before.contains(slot) || all[i as int].save.slot
                == slot));
        }
        i += 1;
    }
    slots
}

/// The first save on Steam of a slot.
pub open spec fn remote_of_slot(remote: Seq<CloudView>, slot: u8) -> Option<CloudView>
    decreases remote.len(),
{
    if remote.len() == 0 {
        None
    } else if remote[0].save.slot == slot {
        Some(remote[0])
    } else {
        remote_of_slot(remote.drop_first(), slot)
    }
}

/// The first save on Steam of a slot.
pub fn remote_for_slot(remote: &Vec<CloudFile>, slot: u8) -> (found: Option<&CloudFile>)
    ensures
        match found {
            Some(file) => remote_of_slot(views(remote@), slot) == Some(file@) && has_slot(
                views(remote@),
                slot,
            ),
            None => remote_of_slot(views(remote@), slot) is None && !has_slot(views(remote@), slot),
        },
{
    let ghost all = views(remote@);
    let mut i: usize = 0;
    assert(all.skip(0) =~= all);
    while i < remote.len()
        invariant
            i <= remote@.len(),
            all == views(remote@),
            remote_of_slot(all, slot) == remote_of_slot(all.skip(i as int), slot),
            forall|k: int| 0 <= k < i ==> (#[trigger] all[k]).save.slot != slot,
        decreases remote@.len() - i,
    {
        assert(all.skip(i as int)[0] == remote@[i as int]@);
        assert(all.skip(i as int).drop_first() =~= all.skip(i + 1));
        if remote[i].save.slot == slot {
            assert(all[i as int].save.slot == slot);
            return Some(&remote[i]);
        }
        i += 1;
    }
    None
}

/// The saves on the device that take part: before the game starts those alone that Steam has
/// too.
pub open spec fn taking_part(
    trigger: Seq<char>,
    local: Seq<LocalView>,
    remote: Seq<CloudView>,
) -> Seq<LocalView> {
    if trigger == "prelaunch"@ {
        local.filter(|save: LocalView| has_slot(remote, save.slot))
    } else {
        local
    }
}

/// The saves on the device that take part, at least one.
pub open spec fn scope_outcome(
    trigger: Seq<char>,
    local: Seq<LocalView>,
    remote: Seq<CloudView>,
) -> Result<Seq<LocalView>, EngineError> {
    let part = taking_part(trigger, local, remote);
    if part.len() > 0 {
        Ok(part)
    } else {
        Err(EngineError::NoLocalSaves)
    }
}

/// The saves on the device that take part, at least one.
pub fn local_in_scope(trigger: &str, local: Vec<LocalSave>, remote: &Vec<CloudFile>) -> (result: Result<
    Vec<LocalSave>,
    EngineError,
>)
    ensures
        scope_outcome(trigger@, views(local@), views(remote@)) == match result {
            Ok(kept) => Ok::<Seq<LocalView>, EngineError>(views(kept@)),
            Err(error) => Err(error),
        },
{
    let kept: Vec<LocalSave> = if same_text(trigger, "prelaunch") {
        let ghost all = views(local@);
        let ghost wanted = |save: LocalView| has_slot(views(remote@), save.slot);
        let mut kept: Vec<LocalSave> = Vec::new();
        let mut i: usize = 0;
        proof {
            reveal(Seq::filter);
            assert(views(kept@) =~= all.take(0).filter(wanted));
        }
        while i < local.len()
            invariant
                i <= local@.len(),
                all == views(local@),
                wanted == (|save: LocalView| has_slot(views(remote@), save.slot)),
                views(kept@) == all.take(i as int).filter(wanted),
            decreases local@.len() - i,
        {
            let ghost held = kept@;
            proof {
                reveal(Seq::filter);
                let upto = all.take(i + 1);
                assert(upto.drop_last() =~= all.take(i as int));
                assert(upto.last() == local@[i as int]@);
            }
            if remote_for_slot(remote, local[i].slot).is_some() {
                assert(wanted(local@[i as int]@));
                let save: LocalSave = local[i].clone();
                kept.push(save);
                assert(views(kept@) =~= views(held).push(local@[i as int]@));
            }
            i += 1;
        }
        assert(all.take(i as int) =~= all);
        kept
    } else {
        local
    };
    assert(views(kept@).len() == kept@.len());
    if kept.len() == 0 {
        return Err(EngineError::NoLocalSaves);
    }
    Ok(kept)
}

/// Whether a save and the one behind it are of the same slot.
pub open spec fn repeats_slot(saves: Seq<LocalView>, at: int) -> bool {
    0 <= at && at + 1 < saves.len() && saves[at].slot == saves[at + 1].slot
}

/// Whether `error` is what is wrong with the slots of the saves: the first that repeats the one
/// before it, if there is any.
pub open spec fn is_slot_check(saves: Seq<LocalView>, error: Option<EngineError>) -> bool {
    match error {
        None => forall|i: int| !#[trigger] repeats_slot(saves, i),
        Some(error) => exists|i: int| #[trigger]
            repeats_slot(saves, i) && error == EngineError::DuplicateSlot(saves[i].slot)
                && forall|k: int| k < i ==> !#[trigger] repeats_slot(saves, k),
    }
}

/// Checks that no two saves behind each other are of the same slot.
pub fn ensure_unique_slots(saves: Vec<LocalSave>) -> (result: Result<Vec<LocalSave>, EngineError>)
    ensures
        match result {
            Ok(kept) => kept@ == saves@ && is_slot_check(views(saves@), None),
            Err(error) => is_slot_check(views(saves@), Some(error)),
        },
{
    let ghost all = views(saves@);
    let total: usize = saves.len();
    let mut i: usize = 0;
    while i < total && i < total - 1
        invariant
            i <= total == saves@.len(),
            all == views(saves@),
            forall|k: int| k < i ==> !#[trigger] repeats_slot(all, k),
        decreases total - i,
    {
        assert(all[i as int] == saves@[i as int]@ && all[i + 1] == saves@[i + 1]@);
        if saves[i].slot == saves[i + 1].slot {
            assert(repeats_slot(all, i as int));
            return Err(EngineError::DuplicateSlot(saves[i].slot));
        }
        assert(!repeats_slot(all, i as int));
        i += 1;
    }
    assert forall|k: int| !#[trigger] repeats_slot(all, k) by {}
    Ok(saves)
}

/// What is shown of a save on the device.
pub open spec fn local_shown(save: LocalView) -> SummaryView {
    SummaryView {
        slot: save.slot,
        filename: save.relative_path,
        size: save.identity.size,
        modified_unix_ms: save.identity.modified_unix_ms,
        sha256: Some(save.identity.sha256),
        steam_sha1: save.identity.steam_sha1,
    }
}

/// What is shown of a save on the device.
pub fn local_summary(save: &LocalSave) -> (summary: SaveSummary)
    ensures
        summary@ == local_shown(save@),
{
    SaveSummary {
        slot: save.slot,
        filename: save.relative_path.clone(),
        size: save.identity.size,
        modified_unix_ms: save.identity.modified_unix_ms,
        sha256: Some(save.identity.sha256.clone()),
        steam_sha1: save.identity.steam_sha1.clone(),
    }
}

/// What is shown of a save on Steam.
pub open spec fn remote_shown(file: CloudView) -> SummaryView {
    SummaryView {
        slot: file.save.slot,
        filename: file.request_name,
        size: file.save.identity.size,
        modified_unix_ms: file.save.identity.modified_unix_ms,
        sha256: if file.save.identity.sha256.len() == 0 {
            None
        } else {
            Some(file.save.identity.sha256)
        },
        steam_sha1: file.save.identity.steam_sha1,
    }
}

/// What is shown of a save on Steam.
pub fn remote_summary(file: &CloudFile) -> (summary: SaveSummary)
    ensures
        summary@ == remote_shown(file@),
{
    proof {
        reveal_strlit("");
        assert(file.save.identity.sha256@.len() == 0 ==> file.save.identity.sha256@ =~= ""@);
    }
    let sha256: Option<String> = if same_text(file.save.identity.sha256.as_str(), "") {
        None
    } else {
        Some(file.save.identity.sha256.clone())
    };
    SaveSummary {
        slot: file.save.slot,
        filename: file.request_name.clone(),
        size: file.save.identity.size,
        modified_unix_ms: file.save.identity.modified_unix_ms,
        sha256,
        steam_sha1: file.save.identity.steam_sha1.clone(),
    }
}

/// What is shown of the saves on the device.
pub fn local_summaries(saves: &Vec<LocalSave>) -> (summaries: Vec<SaveSummary>)
    ensures
        views(summaries@) == Seq::new(saves@.len(), |i: int| local_shown(saves@[i]@)),
{
    let mut summaries: Vec<SaveSummary> = Vec::new();
    let mut i: usize = 0;
    while i < saves.len()
        invariant
            i <= saves@.len(),
            summaries@.len() == i,
            forall|k: int| 0 <= k < i ==> (#[trigger] summaries@[k])@ == local_shown(saves@[k]@),
        decreases saves@.len() - i,
    {
        summaries.push(local_summary(&saves[i]));
        i += 1;
    }
    assert(views(summaries@) =~= Seq::new(saves@.len(), |i: int| local_shown(saves@[i]@)));
    summaries
}

/// What is shown of the saves on Steam.
pub fn remote_summaries(files: &Vec<CloudFile>) -> (summaries: Vec<SaveSummary>)
    ensures
        views(summaries@) == Seq::new(files@.len(), |i: int| remote_shown(files@[i]@)),
{
    let mut summaries: Vec<SaveSummary> = Vec::new();
    let mut i: usize = 0;
    while i < files.len()
        invariant
            i <= files@.len(),
            summaries@.len() == i,
            forall|k: int| 0 <= k < i ==> (#[trigger] summaries@[k])@ == remote_shown(files@[k]@),
        decreases files@.len() - i,
    {
        summaries.push(remote_summary(&files[i]));
        i += 1;
    }
    assert(views(summaries@) =~= Seq::new(files@.len(), |i: int| remote_shown(files@[i]@)));
    summaries
}

/// What the user is asked.
#[derive(Debug, Clone, Copy, PartialEq, Eq, Structural)]
pub enum ChoiceKind {
    /// Steam's version waits for the next start of the game.
    RestartRequired,
    /// The slot was never synchronized.
    FirstSync,
    /// Both sides changed.
    Conflict,
}

/// The name of what the user is asked.
pub open spec fn kind_name(kind: ChoiceKind) -> Seq<char> {
    match kind {
        ChoiceKind::RestartRequired => "remote_update_restart_required"@,
        ChoiceKind::FirstSync => "first_sync"@,
        ChoiceKind::Conflict => "conflict"@,
    }
}

/// What the user is asked about a slot.
pub open spec fn choice_between(
    local: LocalView,
    remote: CloudView,
    remote_identity: IdentityView,
    kind: ChoiceKind,
) -> ChoiceView {
    ChoiceView {
        slot: local.slot,
        kind: kind_name(kind),
        local: local_shown(local),
        remote: SummaryView { sha256: Some(remote_identity.sha256), ..remote_shown(remote) },
        remote_name: remote.request_name,
    }
}

/// What the user is asked about a slot.
pub fn choice_summary(
    local: &LocalSave,
    remote: &CloudFile,
    remote_identity: &FileIdentity,
    kind: ChoiceKind,
) -> (choice: PendingChoice)
    ensures
        choice@ == choice_between(local@, remote@, remote_identity@, kind),
{
    let mut summary: SaveSummary = remote_summary(remote);
    summary.sha256 = Some(remote_identity.sha256.clone());
    let name: String = match kind {
        ChoiceKind::RestartRequired => "remote_update_restart_required".to_owned(),
        ChoiceKind::FirstSync => "first_sync".to_owned(),
        ChoiceKind::Conflict => "conflict".to_owned(),
    };
    PendingChoice {
        slot: local.slot,
        kind: name,
        local: local_summary(local),
        remote: summary,
        remote_name: remote.request_name.clone(),
    }
}

/// The name of the file at the end of a path.
pub open spec fn file_name_of(save: LocalView) -> Seq<char> {
    if save.path.len() == 0 {
        seq![]
    } else {
        save.path.last().text
    }
}

/// What the user is asked about a slot that Steam does not have.
pub open spec fn choice_without_remote(local: LocalView) -> ChoiceView {
    ChoiceView {
        slot: local.slot,
        kind: "first_sync_remote_missing"@,
        local: local_shown(local),
        remote: SummaryView {
            slot: local.slot,
            filename: "Not present on Steam"@,
            size: 0,
            modified_unix_ms: None,
            sha256: None,
            steam_sha1: None,
        },
        remote_name: file_name_of(local),
    }
}

/// The name of the file at the end of a path.
pub fn local_file_name(local: &LocalSave) -> (name: String)
    ensures
        name@ == file_name_of(local@),
{
    let count: usize = local.path.components.len();
    proof {
        reveal_strlit("");
    }
    let name: String = if count == 0 {
        "".to_owned()
    } else {
        local.path.components[count - 1].text.clone()
    };
    assert(name@ =~= file_name_of(local@));
    name
}

/// What the user is asked about a slot that Steam does not have.
pub fn missing_remote_choice(local: &LocalSave) -> (choice: PendingChoice)
    ensures
        choice@ == choice_without_remote(local@),
{
    PendingChoice {
        slot: local.slot,
        kind: "first_sync_remote_missing".to_owned(),
        local: local_summary(local),
        remote: SaveSummary {
            slot: local.slot,
            filename: "Not present on Steam".to_owned(),
            size: 0,
            modified_unix_ms: None,
            sha256: None,
            steam_sha1: None,
        },
        remote_name: local_file_name(local),
    }
}

} // verus!
