//! What the synchronization knows of saves, on the device and on Steam.
use std::collections::BTreeMap;
use vstd::prelude::*;

use crate::bytes::to_vec;
use crate::order::views;
use crate::text::optional_text;

verus! {

/// The Steam application whose saves are synchronized.
pub const STEAM_APP_ID: u32 = 250900;

/// By what a save is recognized.
#[derive(Debug)]
pub struct FileIdentity {
    /// SHA-256 in lower-case hexadecimal, empty where it is not known.
    pub sha256: String,
    pub size: u64,
    pub modified_unix_ms: Option<u64>,
    /// SHA-1 in lower-case hexadecimal, as Steam reports it.
    pub steam_sha1: Option<String>,
}

/// What a `FileIdentity` holds.
pub struct IdentityView {
    pub sha256: Seq<char>,
    pub size: u64,
    pub modified_unix_ms: Option<u64>,
    pub steam_sha1: Option<Seq<char>>,
}

impl View for FileIdentity {
    type V = IdentityView;

    open spec fn view(&self) -> IdentityView {
        IdentityView {
            sha256: self.sha256@,
            size: self.size,
            modified_unix_ms: self.modified_unix_ms,
            steam_sha1: optional_text(self.steam_sha1),
        }
    }
}

impl Clone for FileIdentity {
    fn clone(&self) -> (copy: Self)
        ensures
            copy@ == self@,
    {
        FileIdentity {
            sha256: self.sha256.clone(),
            size: self.size,
            modified_unix_ms: self.modified_unix_ms,
            steam_sha1: self.steam_sha1.clone(),
        }
    }
}

/// The name of a directory entry.
#[derive(Debug)]
pub struct EntryName {
    /// The name as the file system has it.
    pub bytes: Vec<u8>,
    /// The name as text, with replacement characters where it is no UTF-8.
    pub text: String,
    /// Whether the name is UTF-8.
    pub utf8: bool,
}

/// What an `EntryName` holds.
pub struct NameView {
    pub bytes: Seq<u8>,
    pub text: Seq<char>,
    pub utf8: bool,
}

impl View for EntryName {
    type V = NameView;

    open spec fn view(&self) -> NameView {
        NameView {
            bytes: self.bytes@,
            text: self.text@,
            utf8: self.utf8,
        }
    }
}

impl Clone for EntryName {
    fn clone(&self) -> (copy: Self)
        ensures
            copy@ == self@,
    {
        EntryName {
            bytes: to_vec(&self.bytes),
            text: self.text.clone(),
            utf8: self.utf8,
        }
    }
}

/// The position of a file below the sandbox, from the directory below its root down to the
/// file's own name.
#[derive(Debug)]
pub struct SandboxPath {
    pub components: Vec<EntryName>,
}

impl View for SandboxPath {
    type V = Seq<NameView>;

    open spec fn view(&self) -> Seq<NameView> {
        views(self.components@)
    }
}

impl Clone for SandboxPath {
    fn clone(&self) -> (copy: Self)
        ensures
            copy@ == self@,
    {
        let mut components: Vec<EntryName> = Vec::new();
        let mut i: usize = 0;
        while i < self.components.len()
            invariant
                i <= self.components@.len(),
                components@.len() == i,
                forall|j: int| 0 <= j < i ==> #[trigger] components@[j]@ == self.components@[j]@,
            decreases self.components@.len() - i,
        {
            components.push(self.components[i].clone());
            i += 1;
        }
        assert(views(components@) =~= views(self.components@));
        SandboxPath { components }
    }
}

/// A save that was found on the device.
#[derive(Debug)]
pub struct LocalSave {
    pub slot: u8,
    pub path: SandboxPath,
    /// The path below the sandbox, as text.
    pub relative_path: String,
    pub identity: FileIdentity,
}

/// What a `LocalSave` holds.
pub struct LocalView {
    pub slot: u8,
    pub path: Seq<NameView>,
    pub relative_path: Seq<char>,
    pub identity: IdentityView,
}

impl View for LocalSave {
    type V = LocalView;

    open spec fn view(&self) -> LocalView {
        LocalView {
            slot: self.slot,
            path: self.path@,
            relative_path: self.relative_path@,
            identity: self.identity@,
        }
    }
}

impl Clone for LocalSave {
    fn clone(&self) -> (copy: Self)
        ensures
            copy@ == self@,
    {
        LocalSave {
            slot: self.slot,
            path: self.path.clone(),
            relative_path: self.relative_path.clone(),
            identity: self.identity.clone(),
        }
    }
}

/// A save that Steam lists.
#[derive(Debug)]
pub struct RemoteSave {
    pub slot: u8,
    pub filename: String,
    pub path_prefix: String,
    pub identity: FileIdentity,
}

/// What a `RemoteSave` holds.
pub struct RemoteView {
    pub slot: u8,
    pub filename: Seq<char>,
    pub path_prefix: Seq<char>,
    pub identity: IdentityView,
}

impl View for RemoteSave {
    type V = RemoteView;

    open spec fn view(&self) -> RemoteView {
        RemoteView {
            slot: self.slot,
            filename: self.filename@,
            path_prefix: self.path_prefix@,
            identity: self.identity@,
        }
    }
}

impl Clone for RemoteSave {
    fn clone(&self) -> (copy: Self)
        ensures
            copy@ == self@,
    {
        RemoteSave {
            slot: self.slot,
            filename: self.filename.clone(),
            path_prefix: self.path_prefix.clone(),
            identity: self.identity.clone(),
        }
    }
}

/// What is remembered of the last successful synchronization of a slot.
#[derive(Debug)]
pub struct FileSyncState {
    pub slot: u8,
    pub local_relative_path: String,
    pub remote_name: String,
    /// The SHA-256 that the device and Steam last had in common.
    pub base_sha256: String,
    pub base_steam_sha1: Option<String>,
    pub last_local: FileIdentity,
    pub last_remote: FileIdentity,
    pub last_successful_sync_unix_ms: u64,
}

/// What a `FileSyncState` holds.
pub struct FileStateView {
    pub slot: u8,
    pub local_relative_path: Seq<char>,
    pub remote_name: Seq<char>,
    pub base_sha256: Seq<char>,
    pub base_steam_sha1: Option<Seq<char>>,
    pub last_local: IdentityView,
    pub last_remote: IdentityView,
    pub last_successful_sync_unix_ms: u64,
}

impl View for FileSyncState {
    type V = FileStateView;

    open spec fn view(&self) -> FileStateView {
        FileStateView {
            slot: self.slot,
            local_relative_path: self.local_relative_path@,
            remote_name: self.remote_name@,
            base_sha256: self.base_sha256@,
            base_steam_sha1: optional_text(self.base_steam_sha1),
            last_local: self.last_local@,
            last_remote: self.last_remote@,
            last_successful_sync_unix_ms: self.last_successful_sync_unix_ms,
        }
    }
}

impl Clone for FileSyncState {
    fn clone(&self) -> (copy: Self)
        ensures
            copy@ == self@,
    {
        FileSyncState {
            slot: self.slot,
            local_relative_path: self.local_relative_path.clone(),
            remote_name: self.remote_name.clone(),
            base_sha256: self.base_sha256.clone(),
            base_steam_sha1: self.base_steam_sha1.clone(),
            last_local: self.last_local.clone(),
            last_remote: self.last_remote.clone(),
            last_successful_sync_unix_ms: self.last_successful_sync_unix_ms,
        }
    }
}

/// A Steam save that the user chose and that waits for the next launch.
#[derive(Debug)]
pub struct PendingRemotePull {
    pub slot: u8,
    pub remote_name: String,
    pub expected_steam_sha1: Option<String>,
    pub requested_unix_ms: u64,
}

/// What a `PendingRemotePull` holds.
pub struct PullView {
    pub slot: u8,
    pub remote_name: Seq<char>,
    pub expected_steam_sha1: Option<Seq<char>>,
    pub requested_unix_ms: u64,
}

impl View for PendingRemotePull {
    type V = PullView;

    open spec fn view(&self) -> PullView {
        PullView {
            slot: self.slot,
            remote_name: self.remote_name@,
            expected_steam_sha1: optional_text(self.expected_steam_sha1),
            requested_unix_ms: self.requested_unix_ms,
        }
    }
}

impl Clone for PendingRemotePull {
    fn clone(&self) -> (copy: Self)
        ensures
            copy@ == self@,
    {
        PendingRemotePull {
            slot: self.slot,
            remote_name: self.remote_name.clone(),
            expected_steam_sha1: self.expected_steam_sha1.clone(),
            requested_unix_ms: self.requested_unix_ms,
        }
    }
}

/// A backup that the user chose and that waits for the next launch.
#[derive(Debug)]
pub struct PendingLocalRestore {
    pub backup_id: String,
    pub slot: u8,
    pub expected_sha256: String,
    pub requested_unix_ms: u64,
}

/// What a `PendingLocalRestore` holds.
pub struct RestoreView {
    pub backup_id: Seq<char>,
    pub slot: u8,
    pub expected_sha256: Seq<char>,
    pub requested_unix_ms: u64,
}

impl View for PendingLocalRestore {
    type V = RestoreView;

    open spec fn view(&self) -> RestoreView {
        RestoreView {
            backup_id: self.backup_id@,
            slot: self.slot,
            expected_sha256: self.expected_sha256@,
            requested_unix_ms: self.requested_unix_ms,
        }
    }
}

impl Clone for PendingLocalRestore {
    fn clone(&self) -> (copy: Self)
        ensures
            copy@ == self@,
    {
        PendingLocalRestore {
            backup_id: self.backup_id.clone(),
            slot: self.slot,
            expected_sha256: self.expected_sha256.clone(),
            requested_unix_ms: self.requested_unix_ms,
        }
    }
}

/// A backup as its manifest describes it.
#[derive(Debug)]
pub struct BackupRecord {
    pub backup_id: String,
    pub slot: u8,
    pub filename: String,
    pub sha256: String,
}

/// What a `BackupRecord` holds.
pub struct BackupView {
    pub backup_id: Seq<char>,
    pub slot: u8,
    pub filename: Seq<char>,
    pub sha256: Seq<char>,
}

impl View for BackupRecord {
    type V = BackupView;

    open spec fn view(&self) -> BackupView {
        BackupView {
            backup_id: self.backup_id@,
            slot: self.slot,
            filename: self.filename@,
            sha256: self.sha256@,
        }
    }
}

impl Clone for BackupRecord {
    fn clone(&self) -> (copy: Self)
        ensures
            copy@ == self@,
    {
        BackupRecord {
            backup_id: self.backup_id.clone(),
            slot: self.slot,
            filename: self.filename.clone(),
            sha256: self.sha256.clone(),
        }
    }
}

/// Why a backup was made.
#[derive(Debug, Clone, Copy, PartialEq, Eq, Structural)]
pub enum BackupSource {
    LocalFirstSync,
    SteamFirstSync,
    LocalConflict,
    SteamConflict,
    LocalBeforeForce,
    SteamBeforeForce,
    SteamBeforePush,
    LocalBeforePull,
    SteamInvalid,
}

/// What is kept between synchronizations.
#[derive(Debug)]
pub struct SyncState {
    pub steam_id: Option<u64>,
    pub account_name: Option<String>,
    /// One entry for each remote name, in the order of the names.
    pub files: Vec<FileSyncState>,
    pub cloud_change_number: Option<u64>,
    /// The queued pulls by slot.
    pub pending_remote_pulls: BTreeMap<u8, PendingRemotePull>,
    pub pending_local_restore: Option<PendingLocalRestore>,
}

/// What a `SyncState` holds.
pub struct SyncView {
    pub steam_id: Option<u64>,
    pub account_name: Option<Seq<char>>,
    pub files: Seq<FileStateView>,
    pub cloud_change_number: Option<u64>,
    pub pending_remote_pulls: Map<u8, PullView>,
    pub pending_local_restore: Option<RestoreView>,
}

/// The queued pulls by slot.
pub open spec fn pull_views(pulls: Map<u8, PendingRemotePull>) -> Map<u8, PullView> {
    Map::new(|slot: u8| pulls.dom().contains(slot), |slot: u8| pulls[slot]@)
}

impl View for SyncState {
    type V = SyncView;

    open spec fn view(&self) -> SyncView {
        SyncView {
            steam_id: self.steam_id,
            account_name: optional_text(self.account_name),
            files: views(self.files@),
            cloud_change_number: self.cloud_change_number,
            pending_remote_pulls: pull_views(self.pending_remote_pulls@),
            pending_local_restore: match self.pending_local_restore {
                Some(restore) => Some(restore@),
                None => None,
            },
        }
    }
}

/// Whether two identities are of the same bytes with the same modification time.
pub open spec fn same_identity(left: IdentityView, right: IdentityView) -> bool {
    left.sha256 == right.sha256 && left.size == right.size && left.modified_unix_ms
        == right.modified_unix_ms
}

} // verus!
