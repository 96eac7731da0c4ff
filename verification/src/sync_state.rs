//! What is kept between synchronizations: the last common version of each slot, the account,
//! and what waits for the next start of the game.
use vstd::prelude::*;

use crate::cloud::{CloudFile, CloudView};
use crate::model::{
    pull_views, BackupRecord, BackupView, FileIdentity, FileStateView, FileSyncState, IdentityView,
    LocalSave, LocalView, PendingLocalRestore, PendingRemotePull, PullView, RestoreView, SyncState,
    SyncView,
};
use crate::order::{
    ascends, insert_in_order, inserted, insertion_keeps_ascent, is_text_before, text_before,
    text_order, views, Ranked,
};
use crate::text::{chars_of, optional_text, same_text};

verus! {

impl Ranked for FileSyncState {
    open spec fn precedes(a: FileStateView, b: FileStateView) -> bool {
        text_before(a.remote_name, b.remote_name)
    }

    fn is_before(&self, other: &Self) -> (before: bool) {
        is_text_before(&chars_of(self.remote_name.as_str()), &chars_of(other.remote_name.as_str()))
    }

    proof fn precedes_orders(a: FileStateView, b: FileStateView, c: FileStateView) {
        text_order(a.remote_name, b.remote_name, c.remote_name);
        text_order(c.remote_name, b.remote_name, a.remote_name);
        text_order(c.remote_name, a.remote_name, b.remote_name);
        text_order(a.remote_name, c.remote_name, a.remote_name);
        text_order(c.remote_name, a.remote_name, c.remote_name);
        text_order(b.remote_name, a.remote_name, c.remote_name);
    }
}

impl SyncState {
    /// Whether the entries are those of a map by name: every name stands once, and they ascend.
    pub open spec fn wf(&self) -> bool {
        ascends::<FileSyncState>(self@.files)
    }
}

/// The entries that stay when `entry` is put in: those of other slots and other names.
pub open spec fn unrelated(files: Seq<FileStateView>, entry: FileStateView) -> Seq<FileStateView> {
    files.filter(
        |file: FileStateView| file.slot != entry.slot && file.remote_name != entry.remote_name,
    )
}

/// The entries with `entry` in place of those of its slot and its name.
pub open spec fn upserted(files: Seq<FileStateView>, entry: FileStateView) -> Seq<FileStateView> {
    inserted::<FileSyncState>(unrelated(files, entry), entry)
}

/// The entries that stay when an entry is put in.
fn keep_unrelated(files: &Vec<FileSyncState>, entry: &FileSyncState) -> (kept: Vec<FileSyncState>)
    ensures
        views(kept@) == unrelated(views(files@), entry@),
{
    let ghost all = views(files@);
    let ghost wanted = |file: FileStateView|
        file.slot != entry@.slot && file.remote_name != entry@.remote_name;
    let mut kept: Vec<FileSyncState> = Vec::new();
    let mut i: usize = 0;
    proof {
        reveal(Seq::filter);
        assert(views(kept@) =~= all.take(0).filter(wanted));
    }
    while i < files.len()
        invariant
            i <= files@.len(),
            all == views(files@),
            wanted == (|file: FileStateView|
                file.slot != entry@.slot && file.remote_name != entry@.remote_name),
            views(kept@) == all.take(i as int).filter(wanted),
        decreases files@.len() - i,
    {
        let ghost held = kept@;
        proof {
            reveal(Seq::filter);
            let upto = all.take(i + 1);
            assert(upto.drop_last() =~= all.take(i as int));
            assert(upto.last() == files@[i as int]@);
        }
        if files[i].slot != entry.slot && !same_text(
            files[i].remote_name.as_str(),
            entry.remote_name.as_str(),
        ) {
            assert(wanted(files@[i as int]@));
            let file: FileSyncState = files[i].clone();
            kept.push(file);
            assert(views(kept@) =~= views(held).push(files@[i as int]@));
        }
        i += 1;
    }
    assert(all.take(i as int) =~= all);
    kept
}

/// Puts `entry` in place of those of its slot and its name.
pub fn upsert_state(state: &mut SyncState, entry: FileSyncState)
    ensures
        final(state)@ == (SyncView {
            files: upserted(old(state)@.files, entry@),
            ..old(state)@
        }),
        old(state).wf() ==> final(state).wf(),
{
    proof {
        one_entry_for_each_slot(state@.files, entry@);
    }
    let mut files: Vec<FileSyncState> = keep_unrelated(&state.files, &entry);
    insert_in_order(&mut files, entry);
    state.files = files;
}

/// Behind an update the slot has exactly the new entry, every entry of another slot and name
/// is still there, and no other came in; and the entries of a map by name still are.
pub proof fn one_entry_for_each_slot(files: Seq<FileStateView>, entry: FileStateView)
    ensures
        upserted(files, entry).contains(entry),
        forall|file: FileStateView| #[trigger]
            upserted(files, entry).contains(file) <==> file == entry || (files.contains(file)
                && file.slot != entry.slot && file.remote_name != entry.remote_name),
        upserted(files, entry).len() == unrelated(files, entry).len() + 1,
        ascends::<FileSyncState>(files) ==> ascends::<FileSyncState>(upserted(files, entry)),
{
    broadcast use vstd::seq_lib::group_filter_ensures;
    broadcast use vstd::seq_lib::group_to_multiset_ensures;

    let wanted = |file: FileStateView|
        file.slot != entry.slot && file.remote_name != entry.remote_name;
    let kept = unrelated(files, entry);
    let result = upserted(files, entry);
    if ascends::<FileSyncState>(files) {
        kept_ascend(files, entry);
        insertion_keeps_ascent::<FileSyncState>(kept, entry);
    }
    insertion_contents(kept, entry);
    assert forall|file: FileStateView| #[trigger] result.contains(file) <==> file == entry || (
    files.contains(file) && wanted(file)) by {
        assert(result.to_multiset().count(file) > 0 <==> result.contains(file));
        assert(kept.to_multiset().count(file) > 0 <==> kept.contains(file));
        if kept.contains(file) {
            let i = choose|i: int| 0 <= i < kept.len() && kept[i] == file;
            assert(wanted(kept[i]));
            files.lemma_filter_contains_rev(wanted, file);
        }
        if files.contains(file) && wanted(file) {
            let i = choose|i: int| 0 <= i < files.len() && files[i] == file;
            assert(kept.contains(files[i]));
        }
    }
}

proof fn insertion_contents(kept: Seq<FileStateView>, entry: FileStateView)
    ensures
        inserted::<FileSyncState>(kept, entry).to_multiset() == kept.to_multiset().insert(entry),
        inserted::<FileSyncState>(kept, entry).len() == kept.len() + 1,
    decreases kept.len(),
{
    broadcast use vstd::seq_lib::group_to_multiset_ensures;

    if kept.len() > 0 && FileSyncState::precedes(entry, kept.last()) {
        insertion_contents(kept.drop_last(), entry);
        assert(kept =~= kept.drop_last().push(kept.last()));
        let shorter = inserted::<FileSyncState>(kept.drop_last(), entry);
        assert(shorter.push(kept.last()).to_multiset() =~= kept.drop_last().to_multiset().insert(
            entry,
        ).insert(kept.last()));
        assert(kept.to_multiset() =~= kept.drop_last().to_multiset().insert(kept.last()));
        assert(shorter.push(kept.last()).to_multiset() =~= kept.to_multiset().insert(entry));
    }
}

proof fn kept_ascend(files: Seq<FileStateView>, entry: FileStateView)
    requires
        ascends::<FileSyncState>(files),
    ensures
        ascends::<FileSyncState>(unrelated(files, entry)),
        forall|i: int|
            0 <= i < unrelated(files, entry).len() ==> {
                let file = #[trigger] unrelated(files, entry)[i];
                &&& files.contains(file)
                &&& FileSyncState::precedes(file, entry) || FileSyncState::precedes(entry, file)
            },
    decreases files.len(),
{
    reveal(Seq::filter);
    if files.len() > 0 {
        let rest = files.drop_last();
        assert(ascends::<FileSyncState>(rest));
        kept_ascend(rest, entry);
        let kept = unrelated(files, entry);
        let fewer = unrelated(rest, entry);
        assert forall|i: int| 0 <= i < kept.len() implies files.contains(#[trigger] kept[i]) && (
        FileSyncState::precedes(kept[i], entry) || FileSyncState::precedes(entry, kept[i])) by {
            if i < fewer.len() {
                assert(kept[i] == fewer[i]);
                let at = choose|at: int| 0 <= at < rest.len() && rest[at] == fewer[i];
                assert(files[at] == kept[i]);
            } else {
                assert(files[files.len() - 1] == kept[i]);
                text_order(kept[i].remote_name, entry.remote_name, entry.remote_name);
            }
        }
        assert forall|i: int, j: int|
            0 <= i < j < kept.len() implies FileSyncState::precedes(kept[i], kept[j]) by {
            assert(kept[i] == fewer[i]);
            if j >= fewer.len() {
                let at = choose|at: int| 0 <= at < rest.len() && rest[at] == fewer[i];
                assert(FileSyncState::precedes(files[at], files[files.len() - 1]));
            } else {
                assert(FileSyncState::precedes(fewer[i], fewer[j]));
            }
        }
    }
}

/// The entry of a slot, the first where there are several.
pub open spec fn entry_for(files: Seq<FileStateView>, slot: u8) -> Option<FileStateView>
    decreases files.len(),
{
    if files.len() == 0 {
        None
    } else if files[0].slot == slot {
        Some(files[0])
    } else {
        entry_for(files.drop_first(), slot)
    }
}

/// The entry of a slot.
pub fn prior_entry(state: &SyncState, slot: u8) -> (entry: Option<&FileSyncState>)
    ensures
        match entry {
            Some(entry) => entry_for(state@.files, slot) == Some(entry@),
            None => entry_for(state@.files, slot) is None,
        },
{
    let ghost all = views(state.files@);
    let mut i: usize = 0;
    assert(all.skip(0) =~= all);
    while i < state.files.len()
        invariant
            i <= state.files@.len(),
            all == views(state.files@),
            entry_for(all, slot) == entry_for(all.skip(i as int), slot),
        decreases state.files@.len() - i,
    {
        assert(all.skip(i as int)[0] == state.files@[i as int]@);
        assert(all.skip(i as int).drop_first() =~= all.skip(i + 1));
        if state.files[i].slot == slot {
            return Some(&state.files[i]);
        }
        i += 1;
    }
    None
}

/// The last common version of a slot.
pub open spec fn base_of(files: Seq<FileStateView>, slot: u8) -> Option<Seq<char>> {
    match entry_for(files, slot) {
        Some(entry) => Some(entry.base_sha256),
        None => None,
    }
}

proof fn entry_found(files: Seq<FileStateView>, slot: u8)
    ensures
        match entry_for(files, slot) {
            Some(entry) => files.contains(entry) && entry.slot == slot,
            None => forall|i: int| 0 <= i < files.len() ==> (#[trigger] files[i]).slot != slot,
        },
    decreases files.len(),
{
    if files.len() > 0 && files[0].slot != slot {
        let rest = files.drop_first();
        entry_found(rest, slot);
        assert forall|i: int| 0 < i < files.len() implies #[trigger] files[i] == rest[i - 1] by {}
        if let Some(entry) = entry_for(rest, slot) {
            let at = choose|at: int| 0 <= at < rest.len() && rest[at] == entry;
            assert(files[at + 1] == entry);
        }
    }
}

/// The last common version of a slot is the one that was put in last for it.
pub proof fn update_sets_base(files: Seq<FileStateView>, entry: FileStateView)
    ensures
        base_of(upserted(files, entry), entry.slot) == Some(entry.base_sha256),
{
    let result = upserted(files, entry);
    one_entry_for_each_slot(files, entry);
    entry_found(result, entry.slot);
    let at = choose|at: int| 0 <= at < result.len() && result[at] == entry;
    assert(result[at].slot == entry.slot);
}

proof fn entry_of_pushed(files: Seq<FileStateView>, last: FileStateView, slot: u8)
    ensures
        entry_for(files.push(last), slot) == match entry_for(files, slot) {
            Some(entry) => Some(entry),
            None => if last.slot == slot {
                Some(last)
            } else {
                None
            },
        },
    decreases files.len(),
{
    reveal_with_fuel(entry_for, 2);
    if files.len() > 0 {
        entry_of_pushed(files.drop_first(), last, slot);
        assert(files.push(last).drop_first() =~= files.drop_first().push(last));
    }
}

proof fn entry_of_inserted(kept: Seq<FileStateView>, entry: FileStateView, slot: u8)
    requires
        slot != entry.slot,
    ensures
        entry_for(inserted::<FileSyncState>(kept, entry), slot) == entry_for(kept, slot),
    decreases kept.len(),
{
    if kept.len() > 0 && FileSyncState::precedes(entry, kept.last()) {
        entry_of_inserted(kept.drop_last(), entry, slot);
        entry_of_pushed(
            inserted::<FileSyncState>(kept.drop_last(), entry),
            kept.last(),
            slot,
        );
        entry_of_pushed(kept.drop_last(), kept.last(), slot);
        assert(kept.drop_last().push(kept.last()) =~= kept);
    } else {
        entry_of_pushed(kept, entry, slot);
    }
}

proof fn entry_of_unrelated(files: Seq<FileStateView>, entry: FileStateView, slot: u8)
    requires
        slot != entry.slot,
        forall|i: int|
            0 <= i < files.len() && (#[trigger] files[i]).slot == slot ==> files[i].remote_name
                != entry.remote_name,
    ensures
        entry_for(unrelated(files, entry), slot) == entry_for(files, slot),
    decreases files.len(),
{
    reveal(Seq::filter);
    if files.len() > 0 {
        let rest = files.drop_last();
        assert(files.last() == files[files.len() - 1]);
        assert forall|i: int|
            0 <= i < rest.len() && (#[trigger] rest[i]).slot == slot implies rest[i].remote_name
            != entry.remote_name by {
            assert(rest[i] == files[i]);
        }
        entry_of_unrelated(rest, entry, slot);
        entry_of_pushed(rest, files.last(), slot);
        entry_of_pushed(unrelated(rest, entry), files.last(), slot);
        assert(rest.push(files.last()) =~= files);
    }
}

/// An update leaves every other slot as it was, unless that slot had the name that the new
/// entry has.
pub proof fn other_slots_stay(files: Seq<FileStateView>, entry: FileStateView, slot: u8)
    requires
        slot != entry.slot,
        forall|i: int|
            0 <= i < files.len() && (#[trigger] files[i]).slot == slot ==> files[i].remote_name
                != entry.remote_name,
    ensures
        entry_for(upserted(files, entry), slot) == entry_for(files, slot),
{
    entry_of_unrelated(files, entry, slot);
    entry_of_inserted(unrelated(files, entry), entry, slot);
}

/// The state behind a sign-in to an account: another account than before starts without last
/// common versions and without queued pulls.
pub open spec fn bound(state: SyncView, steam_id: u64, account_name: Option<Seq<char>>) -> SyncView {
    let kept = if state.steam_id matches Some(prior) && prior != steam_id {
        SyncView {
            files: seq![],
            cloud_change_number: None,
            pending_remote_pulls: Map::empty(),
            ..state
        }
    } else {
        state
    };
    SyncView {
        steam_id: Some(steam_id),
        account_name: match account_name {
            Some(name) => Some(name),
            None => state.account_name,
        },
        ..kept
    }
}

/// Binds the state to an account, and says whether it was another one's.
pub fn bind_state_to_account(state: &mut SyncState, steam_id: u64, account_name: Option<String>) -> (changed:
    bool)
    ensures
        final(state)@ == bound(old(state)@, steam_id, optional_text(account_name)),
        changed == (old(state)@.steam_id is Some && old(state)@.steam_id != Some(steam_id)),
        old(state).wf() ==> final(state).wf(),
{
    let ghost before = state@;
    let changed: bool = match state.steam_id {
        Some(prior) => prior != steam_id,
        None => false,
    };
    if changed {
        state.files = Vec::new();
        state.cloud_change_number = None;
        state.pending_remote_pulls.clear();
        assert(state@.files =~= seq![]);
        assert(state@.pending_remote_pulls =~= Map::<u8, PullView>::empty());
    }
    state.steam_id = Some(steam_id);
    if account_name.is_some() {
        state.account_name = account_name;
    }
    changed
}

/// Signing in to another account clears every last common version and every queued pull, so
/// that each slot starts with a choice; signing in to the same account keeps them.
pub proof fn another_account_starts_over(
    state: SyncView,
    steam_id: u64,
    account_name: Option<Seq<char>>,
    slot: u8,
)
    ensures
        bound(state, steam_id, account_name).steam_id == Some(steam_id),
        state.steam_id is Some && state.steam_id != Some(steam_id) ==> base_of(
            bound(state, steam_id, account_name).files,
            slot,
        ) is None && !bound(state, steam_id, account_name).pending_remote_pulls.dom().contains(slot),
        state.steam_id is None || state.steam_id == Some(steam_id) ==> bound(
            state,
            steam_id,
            account_name,
        ).files == state.files && bound(state, steam_id, account_name).pending_remote_pulls
            == state.pending_remote_pulls,
{
}

/// The entry of a slot whose save on the device agrees with the one on Steam.
pub open spec fn synced_entry(
    local: LocalView,
    remote: CloudView,
    remote_identity: IdentityView,
    now: u64,
) -> FileStateView {
    FileStateView {
        slot: local.slot,
        local_relative_path: local.relative_path,
        remote_name: remote.request_name,
        base_sha256: local.identity.sha256,
        base_steam_sha1: remote_identity.steam_sha1,
        last_local: local.identity,
        last_remote: remote_identity,
        last_successful_sync_unix_ms: now,
    }
}

/// The entry of a slot whose save on the device agrees with the one on Steam.
pub fn make_file_state(
    local: &LocalSave,
    remote: &CloudFile,
    remote_identity: &FileIdentity,
    now: u64,
) -> (entry: FileSyncState)
    ensures
        entry@ == synced_entry(local@, remote@, remote_identity@, now),
{
    FileSyncState {
        slot: local.slot,
        local_relative_path: local.relative_path.clone(),
        remote_name: remote.request_name.clone(),
        base_sha256: local.identity.sha256.clone(),
        base_steam_sha1: remote_identity.steam_sha1.clone(),
        last_local: local.identity.clone(),
        last_remote: remote_identity.clone(),
        last_successful_sync_unix_ms: now,
    }
}

/// The request to replace a save on the device by Steam's version.
pub open spec fn pull_of(slot: u8, remote: CloudView, now: u64) -> PullView {
    PullView {
        slot,
        remote_name: remote.request_name,
        expected_steam_sha1: remote.save.identity.steam_sha1,
        requested_unix_ms: now,
    }
}

/// Queues the replacement of a save on the device for the next start of the game.
pub fn queue_remote_pull(state: &mut SyncState, slot: u8, remote: &CloudFile, now: u64)
    ensures
        final(state)@ == (SyncView {
            pending_remote_pulls: old(state)@.pending_remote_pulls.insert(
                slot,
                pull_of(slot, remote@, now),
            ),
            ..old(state)@
        }),
{
    let pull: PendingRemotePull = PendingRemotePull {
        slot,
        remote_name: remote.request_name.clone(),
        expected_steam_sha1: remote.save.identity.steam_sha1.clone(),
        requested_unix_ms: now,
    };
    let ghost view = pull@;
    let ghost before = state.pending_remote_pulls@;
    state.pending_remote_pulls.insert(slot, pull);
    assert(pull_views(state.pending_remote_pulls@) =~= pull_views(before).insert(slot, view));
}

/// Takes a queued replacement back.
pub fn forget_remote_pull(state: &mut SyncState, slot: u8)
    ensures
        final(state)@ == (SyncView {
            pending_remote_pulls: old(state)@.pending_remote_pulls.remove(slot),
            ..old(state)@
        }),
{
    let ghost before = state.pending_remote_pulls@;
    state.pending_remote_pulls.remove(&slot);
    assert(pull_views(state.pending_remote_pulls@) =~= pull_views(before).remove(slot));
}

/// The state with a restore of a backup queued for the next start of the game.
pub open spec fn restore_queued(state: SyncView, record: BackupView, now: u64) -> SyncView {
    SyncView {
        pending_local_restore: Some(
            RestoreView {
                backup_id: record.backup_id,
                slot: record.slot,
                expected_sha256: record.sha256,
                requested_unix_ms: now,
            },
        ),
        ..state
    }
}

/// The state without a queued restore.
pub open spec fn without_restore(state: SyncView) -> SyncView {
    SyncView { pending_local_restore: None, ..state }
}

/// Whether a queued restore may be carried out.
pub open spec fn restore_outcome(replacement_allowed: bool) -> Result<(), RestoreError> {
    if replacement_allowed {
        Ok(())
    } else {
        Err(RestoreError::NotPrelaunch)
    }
}

/// Why a backup is not restored.
#[derive(Debug, Clone, Copy, PartialEq, Eq, Structural)]
pub enum RestoreError {
    /// There is no such backup.
    NotFound,
    /// The queued backup is no longer there.
    QueuedNotFound,
    /// The queued backup is another one than the user chose.
    ManifestChanged,
    /// The game is already running.
    NotPrelaunch,
}

impl RestoreError {
    /// The message for the user.
    pub open spec fn text(self) -> Seq<char> {
        match self {
            RestoreError::NotFound => "backup not found"@,
            RestoreError::QueuedNotFound => "queued backup no longer exists"@,
            RestoreError::ManifestChanged =>
                "queued backup manifest no longer matches the approved version"@,
            RestoreError::NotPrelaunch => "queued restore is only allowed during prelaunch"@,
        }
    }

    /// The message for the user.
    pub fn message(&self) -> (message: String)
        ensures
            message@ == self.text(),
    {
        match self {
            RestoreError::NotFound => "backup not found".to_owned(),
            RestoreError::QueuedNotFound => "queued backup no longer exists".to_owned(),
            RestoreError::ManifestChanged =>
                "queued backup manifest no longer matches the approved version".to_owned(),
            RestoreError::NotPrelaunch =>
                "queued restore is only allowed during prelaunch".to_owned(),
        }
    }
}

/// The first backup with the given identifier.
pub open spec fn backup_with_id(records: Seq<BackupView>, backup_id: Seq<char>) -> Option<BackupView>
    decreases records.len(),
{
    if records.len() == 0 {
        None
    } else if records[0].backup_id == backup_id {
        Some(records[0])
    } else {
        backup_with_id(records.drop_first(), backup_id)
    }
}

/// The first backup with the given identifier.
fn find_backup<'a>(records: &'a Vec<BackupRecord>, backup_id: &str) -> (found: Option<
    &'a BackupRecord,
>)
    ensures
        match found {
            Some(record) => backup_with_id(views(records@), backup_id@) == Some(record@),
            None => backup_with_id(views(records@), backup_id@) is None,
        },
{
    let ghost all = views(records@);
    let mut i: usize = 0;
    assert(all.skip(0) =~= all);
    while i < records.len()
        invariant
            i <= records@.len(),
            all == views(records@),
            backup_with_id(all, backup_id@) == backup_with_id(all.skip(i as int), backup_id@),
        decreases records@.len() - i,
    {
        assert(all.skip(i as int)[0] == records@[i as int]@);
        assert(all.skip(i as int).drop_first() =~= all.skip(i + 1));
        if same_text(records[i].backup_id.as_str(), backup_id) {
            return Some(&records[i]);
        }
        i += 1;
    }
    None
}

/// The backup that the user chose.
pub fn backup_to_restore<'a>(records: &'a Vec<BackupRecord>, backup_id: &str) -> (result: Result<
    &'a BackupRecord,
    RestoreError,
>)
    ensures
        match result {
            Ok(record) => backup_with_id(views(records@), backup_id@) == Some(record@),
            Err(error) => backup_with_id(views(records@), backup_id@) is None && error
                == RestoreError::NotFound,
        },
{
    match find_backup(records, backup_id) {
        Some(record) => Ok(record),
        None => Err(RestoreError::NotFound),
    }
}

/// Queues the restoration of a backup for the next start of the game.
pub fn queue_restore(state: &mut SyncState, record: &BackupRecord, now: u64)
    ensures
        final(state)@ == restore_queued(old(state)@, record@, now),
{
    state.pending_local_restore = Some(
        PendingLocalRestore {
            backup_id: record.backup_id.clone(),
            slot: record.slot,
            expected_sha256: record.sha256.clone(),
            requested_unix_ms: now,
        },
    );
}

/// The backup that is restored at the start of the game: the queued one, if it is still the
/// one that the user chose.
pub open spec fn approved_backup(pending: RestoreView, records: Seq<BackupView>) -> Result<
    BackupView,
    RestoreError,
> {
    match backup_with_id(records, pending.backup_id) {
        None => Err(RestoreError::QueuedNotFound),
        Some(record) => if record.slot != pending.slot || record.sha256
            != pending.expected_sha256 {
            Err(RestoreError::ManifestChanged)
        } else {
            Ok(record)
        },
    }
}

/// The backup that is restored at the start of the game.
pub fn queued_backup<'a>(pending: &PendingLocalRestore, records: &'a Vec<BackupRecord>) -> (result:
    Result<&'a BackupRecord, RestoreError>)
    ensures
        match result {
            Ok(record) => approved_backup(pending@, views(records@)) == Ok::<
                BackupView,
                RestoreError,
            >(record@),
            Err(error) => approved_backup(pending@, views(records@)) == Err::<
                BackupView,
                RestoreError,
            >(error),
        },
{
    match find_backup(records, pending.backup_id.as_str()) {
        None => Err(RestoreError::QueuedNotFound),
        Some(record) => if record.slot != pending.slot || !same_text(
            record.sha256.as_str(),
            pending.expected_sha256.as_str(),
        ) {
            Err(RestoreError::ManifestChanged)
        } else {
            Ok(record)
        },
    }
}

/// A save is replaced by a backup only before the game starts.
pub fn check_restore_allowed(replacement_allowed: bool) -> (result: Result<(), RestoreError>)
    ensures
        result == restore_outcome(replacement_allowed),
{
    if !replacement_allowed {
        return Err(RestoreError::NotPrelaunch);
    }
    Ok(())
}

/// Takes a carried out restoration off the queue.
pub fn restore_done(state: &mut SyncState)
    ensures
        final(state)@ == without_restore(old(state)@),
{
    state.pending_local_restore = None;
}

} // verus!
