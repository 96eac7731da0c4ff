//! Carrying a version from one side to the other: how an upload is prepared, what makes a
//! transfer count, and what the user can force.
use std::collections::BTreeSet;
use vstd::prelude::*;

use crate::bytes::to_vec;
use crate::cloud::{CloudFile, CloudView};
use crate::digest::{hex_text, identity_for_bytes, identity_of, sha1_of};
use crate::engine::{file_name_of, local_file_name, EngineError};
use crate::isaac_format::{
    as_rep, as_rep_plus, canonical_form, canonicalize_save, convert_rep_to_rep_plus, is_canonical,
    is_rep_plus, CanonicalSave, SaveEncoding, SaveError,
};
use crate::isaac_format_laws::{canonical_form_is_stable, is_standard_rep, rep_survives_rep_plus};
use crate::lz4::MAX_SAVE_SIZE;
use crate::model::{
    FileIdentity, FileStateView, FileSyncState, IdentityView, LocalSave, LocalView, SyncState,
    SyncView,
};
use crate::order::{sorted_form, sorting_orders, stable_sort, views, Ranked};
use crate::slot_sync::{copy_identity, copy_of, planned, CopyView, SlotPlan, SlotStep};
use crate::status::{ChoiceView, PendingChoice};
use crate::sync_engine::SyncDecision;
use crate::sync_state::{
    base_of, entry_for, prior_entry, update_sets_base, upsert_state, upserted,
};
use crate::text::{ascii_lower, contains, contains_text, same_text, to_ascii_lowercase};
use crate::transfer::is_upload;

verus! {

/// An upload that is ready.
#[derive(Debug)]
pub struct PreparedUpload {
    /// The bytes that Steam gets.
    pub bytes: Vec<u8>,
    /// The identity of the canonical form, with the time of the file.
    pub identity: FileIdentity,
    /// Whether the device's encoding was undone.
    pub decoded: bool,
}

/// What a `PreparedUpload` holds.
pub struct UploadView {
    pub bytes: Seq<u8>,
    pub identity: IdentityView,
    pub decoded: bool,
}

impl View for PreparedUpload {
    type V = UploadView;

    open spec fn view(&self) -> UploadView {
        UploadView { bytes: self.bytes@, identity: self.identity@, decoded: self.decoded }
    }
}

/// Whether the file on Steam is of the Repentance+ generation by its name.
pub open spec fn wants_rep_plus(remote_name: Seq<char>) -> bool {
    contains_text(ascii_lower(remote_name), "rep+persistentgamedata"@)
}

/// The upload of a staged save under the given name: its canonical form, in the layout of the
/// generation that the name is of.
pub open spec fn upload_of(
    staged: Seq<u8>,
    modified_unix_ms: Option<u64>,
    remote_name: Seq<char>,
) -> Result<UploadView, SaveError> {
    match canonical_form(staged) {
        Err(error) => Err(error),
        Ok((canonical, encoding)) => match if wants_rep_plus(remote_name) {
            as_rep_plus(canonical)
        } else {
            Ok(canonical)
        } {
            Err(error) => Err(error),
            Ok(bytes) => Ok(
                UploadView {
                    bytes,
                    identity: IdentityView { modified_unix_ms, ..identity_of(canonical) },
                    decoded: encoding == SaveEncoding::IosRawLz4,
                },
            ),
        },
    }
}

/// Prepares the upload of a staged save, which was `stable_raw` when it was staged.
pub fn prepare_upload(staged: &[u8], stable_raw: &FileIdentity, target_remote_name: &str) -> (result:
    Result<PreparedUpload, SaveError>)
    ensures
        match result {
            Ok(upload) => upload_of(
                staged@,
                stable_raw@.modified_unix_ms,
                target_remote_name@,
            ) == Ok::<UploadView, SaveError>(upload@),
            Err(error) => upload_of(
                staged@,
                stable_raw@.modified_unix_ms,
                target_remote_name@,
            ) == Err::<UploadView, SaveError>(error),
        },
{
    let canonical: CanonicalSave = match canonicalize_save(staged) {
        Ok(canonical) => canonical,
        Err(error) => return Err(error),
    };
    proof {
        canonical_form_is_stable(staged@);
    }
    let lower: String = to_ascii_lowercase(target_remote_name);
    let bytes: Vec<u8> = if contains(lower.as_str(), "rep+persistentgamedata") {
        match convert_rep_to_rep_plus(&canonical.bytes) {
            Ok(bytes) => bytes,
            Err(error) => return Err(error),
        }
    } else {
        to_vec(&canonical.bytes)
    };
    let mut identity: FileIdentity = identity_for_bytes(&canonical.bytes);
    identity.modified_unix_ms = stable_raw.modified_unix_ms;
    Ok(
        PreparedUpload {
            bytes,
            identity,
            decoded: canonical.encoding == SaveEncoding::IosRawLz4,
        },
    )
}

/// What was uploaded of a save of the Repentance generation compares as that save when it is
/// downloaded again, under the names of either generation.
pub proof fn upload_reads_back(
    staged: Seq<u8>,
    modified_unix_ms: Option<u64>,
    remote_name: Seq<char>,
    file: CloudView,
    slot: u8,
)
    requires
        canonical_form(staged) is Ok,
        is_standard_rep((canonical_form(staged)->Ok_0).0),
        (canonical_form(staged)->Ok_0).0.len() + 112 <= MAX_SAVE_SIZE,
    ensures
        ({
            let canonical = (canonical_form(staged)->Ok_0).0;
            let upload = upload_of(staged, modified_unix_ms, remote_name);
            &&& upload is Ok
            &&& upload->Ok_0.identity.sha256 == identity_of(canonical).sha256
            &&& copy_of(upload->Ok_0.bytes, file, slot) == Ok::<CopyView, EngineError>(
                CopyView {
                    canonical: upload->Ok_0.bytes,
                    normalized: canonical,
                    needs_repair: false,
                    identity: copy_identity(canonical, file),
                },
            )
        }),
{
    let canonical = (canonical_form(staged)->Ok_0).0;
    standard_rep_exchanges(canonical);
    if wants_rep_plus(remote_name) {
        copy_of_normalizable(as_rep_plus(canonical)->Ok_0, canonical, file, slot);
    } else {
        copy_of_normalizable(canonical, canonical, file, slot);
    }
}

/// What was uploaded under a name that is not of the Repentance+ generation is the canonical
/// form itself, and is found as that when it is downloaded again.
pub proof fn plain_upload_reads_back(
    staged: Seq<u8>,
    modified_unix_ms: Option<u64>,
    remote_name: Seq<char>,
    file: CloudView,
    slot: u8,
)
    requires
        canonical_form(staged) is Ok,
        !wants_rep_plus(remote_name),
    ensures
        ({
            let canonical = (canonical_form(staged)->Ok_0).0;
            let upload = upload_of(staged, modified_unix_ms, remote_name);
            &&& upload is Ok
            &&& upload->Ok_0.bytes == canonical
            &&& copy_of(canonical, file, slot) matches Ok(copy) ==> copy.canonical == canonical
                && !copy.needs_repair
            &&& !is_rep_plus(canonical) ==> copy_of(canonical, file, slot) == Ok::<
                CopyView,
                EngineError,
            >(
                CopyView {
                    canonical,
                    normalized: canonical,
                    needs_repair: false,
                    identity: copy_identity(canonical, file),
                },
            )
        }),
{
    let canonical = (canonical_form(staged)->Ok_0).0;
    canonical_form_is_stable(staged);
    if !is_rep_plus(canonical) {
        copy_of_normalizable(canonical, canonical, file, slot);
    }
}

/// Once an upload of a save of the Repentance generation is the last common version, and
/// neither side has changed since, the next synchronization leaves the slot alone.
pub proof fn settled_upload_stays(
    state: SyncView,
    local: LocalView,
    remote: CloudView,
    staged: Seq<u8>,
    modified_unix_ms: Option<u64>,
    remote_name: Seq<char>,
    allow_upload: bool,
    replacement_allowed: bool,
)
    requires
        canonical_form(staged) is Ok,
        is_standard_rep((canonical_form(staged)->Ok_0).0),
        (canonical_form(staged)->Ok_0).0.len() + 112 <= MAX_SAVE_SIZE,
        local.identity.sha256 == identity_of((canonical_form(staged)->Ok_0).0).sha256,
        base_of(state.files, local.slot) == Some(local.identity.sha256),
        !state.pending_remote_pulls.dom().contains(local.slot),
    ensures
        ({
            let upload = upload_of(staged, modified_unix_ms, remote_name)->Ok_0;
            let copy = copy_of(upload.bytes, remote, local.slot)->Ok_0;
            planned(state, local, remote, copy, allow_upload, replacement_allowed) == (SlotPlan {
                forget_pull: false,
                compared: Some(SyncDecision::Unchanged),
                step: SlotStep::Keep,
            })
        }),
{
    upload_reads_back(staged, modified_unix_ms, remote_name, remote, local.slot);
}

proof fn copy_of_normalizable(bytes: Seq<u8>, normalized: Seq<u8>, file: CloudView, slot: u8)
    requires
        canonical_form(bytes) == Ok::<(Seq<u8>, SaveEncoding), SaveError>(
            (bytes, SaveEncoding::SteamCanonical),
        ),
        as_rep(bytes) == Ok::<Seq<u8>, SaveError>(normalized),
    ensures
        copy_of(bytes, file, slot) == Ok::<CopyView, EngineError>(
            CopyView {
                canonical: bytes,
                normalized,
                needs_repair: false,
                identity: copy_identity(normalized, file),
            },
        ),
{
}

proof fn standard_rep_exchanges(canonical: Seq<u8>)
    requires
        is_standard_rep(canonical),
        canonical.len() + 112 <= MAX_SAVE_SIZE,
    ensures
        canonical_form(canonical) == Ok::<(Seq<u8>, SaveEncoding), SaveError>(
            (canonical, SaveEncoding::SteamCanonical),
        ),
        as_rep(canonical) == Ok::<Seq<u8>, SaveError>(canonical),
        as_rep_plus(canonical) is Ok,
        canonical_form(as_rep_plus(canonical)->Ok_0) == Ok::<(Seq<u8>, SaveEncoding), SaveError>(
            (as_rep_plus(canonical)->Ok_0, SaveEncoding::SteamCanonical),
        ),
        as_rep(as_rep_plus(canonical)->Ok_0) == Ok::<Seq<u8>, SaveError>(canonical),
{
    rep_survives_rep_plus(canonical);
    let plus = as_rep_plus(canonical)->Ok_0;
    is_own_canonical_form(canonical);
    is_own_canonical_form(plus);
}

proof fn is_own_canonical_form(data: Seq<u8>)
    requires
        is_canonical(data),
    ensures
        canonical_form(data) == Ok::<(Seq<u8>, SaveEncoding), SaveError>(
            (data, SaveEncoding::SteamCanonical),
        ),
{
}

/// Whether Steam has a file of the slot or the name.
pub open spec fn occupied(latest: Seq<CloudView>, slot: u8, remote_name: Seq<char>) -> bool {
    exists|i: int|
        0 <= i < latest.len() && ((#[trigger] latest[i]).save.slot == slot
            || latest[i].request_name == remote_name)
}

/// Checks that Steam still has neither the slot nor the name of a new upload.
pub fn check_not_created(latest: &Vec<CloudFile>, slot: u8, remote_name: &str) -> (result: Result<
    (),
    EngineError,
>)
    ensures
        result == if occupied(views(latest@), slot, remote_name@) {
            Err::<(), EngineError>(EngineError::RemoteCreated)
        } else {
            Ok(())
        },
{
    let ghost all = views(latest@);
    let mut i: usize = 0;
    while i < latest.len()
        invariant
            i <= latest@.len(),
            all == views(latest@),
            forall|k: int|
                0 <= k < i ==> !((#[trigger] all[k]).save.slot == slot || all[k].request_name
                    == remote_name@),
        decreases latest@.len() - i,
    {
        assert(all[i as int] == latest@[i as int]@);
        if latest[i].save.slot == slot || same_text(latest[i].request_name.as_str(), remote_name) {
            return Err(EngineError::RemoteCreated);
        }
        i += 1;
    }
    Ok(())
}

/// The first file with the given name.
pub open spec fn file_named(files: Seq<CloudView>, request_name: Seq<char>) -> Option<CloudView>
    decreases files.len(),
{
    if files.len() == 0 {
        None
    } else if files[0].request_name == request_name {
        Some(files[0])
    } else {
        file_named(files.drop_first(), request_name)
    }
}

/// The first file with the given name.
fn find_named<'a>(files: &'a Vec<CloudFile>, request_name: &str) -> (found: Option<&'a CloudFile>)
    ensures
        match found {
            Some(file) => file_named(views(files@), request_name@) == Some(file@),
            None => file_named(views(files@), request_name@) is None,
        },
{
    let ghost all = views(files@);
    let mut i: usize = 0;
    assert(all.skip(0) =~= all);
    while i < files.len()
        invariant
            i <= files@.len(),
            all == views(files@),
            file_named(all, request_name@) == file_named(all.skip(i as int), request_name@),
        decreases files@.len() - i,
    {
        assert(all.skip(i as int)[0] == files@[i as int]@);
        assert(all.skip(i as int).drop_first() =~= all.skip(i + 1));
        if same_text(files[i].request_name.as_str(), request_name) {
            return Some(&files[i]);
        }
        i += 1;
    }
    None
}

/// Whether Steam's version is still the expected one.
#[derive(Debug)]
pub enum RemoteCheck {
    /// The hashes that Steam lists tell: it is.
    Unchanged,
    /// Steam does not list both hashes, so this file is downloaded and compared.
    Compare(CloudFile),
}

/// Checks by the list of files that Steam's version is still the expected one.
pub fn check_remote_listed(latest: &Vec<CloudFile>, expected: &CloudFile) -> (result: Result<
    RemoteCheck,
    EngineError,
>)
    ensures
        match (result, file_named(views(latest@), expected@.request_name)) {
            (Err(error), None) => error == EngineError::RemoteDisappeared,
            (result, Some(file)) => match (
                expected@.save.identity.steam_sha1,
                file.save.identity.steam_sha1,
            ) {
                (Some(before), Some(now)) => if before == now {
                    result matches Ok(RemoteCheck::Unchanged)
                } else {
                    result matches Err(EngineError::RemoteChanged)
                },
                _ => result matches Ok(RemoteCheck::Compare(found)) && found@ == file,
            },
            _ => false,
        },
{
    let file: &CloudFile = match find_named(latest, expected.request_name.as_str()) {
        Some(file) => file,
        None => return Err(EngineError::RemoteDisappeared),
    };
    match (&expected.save.identity.steam_sha1, &file.save.identity.steam_sha1) {
        (Some(before), Some(now)) => if same_text(before.as_str(), now.as_str()) {
            Ok(RemoteCheck::Unchanged)
        } else {
            Err(EngineError::RemoteChanged)
        },
        _ => Ok(RemoteCheck::Compare(file.clone())),
    }
}

/// Checks by their SHA-256 that the downloaded bytes are the expected ones.
pub fn check_remote_bytes(latest: &[u8], expected: &[u8]) -> (result: Result<(), EngineError>)
    ensures
        result == if identity_of(latest@).sha256 == identity_of(expected@).sha256 {
            Ok::<(), EngineError>(())
        } else {
            Err(EngineError::RemoteChanged)
        },
{
    let now: FileIdentity = identity_for_bytes(latest);
    let before: FileIdentity = identity_for_bytes(expected);
    if !same_text(now.sha256.as_str(), before.sha256.as_str()) {
        return Err(EngineError::RemoteChanged);
    }
    Ok(())
}

/// Checks that the bytes of the save on the device did not change during the upload.
pub fn check_local_unchanged(stable_raw: &FileIdentity, observed_raw: &FileIdentity) -> (result:
    Result<(), EngineError>)
    ensures
        result == if observed_raw@.sha256 != stable_raw@.sha256 {
            Err::<(), EngineError>(EngineError::LocalChanged)
        } else {
            Ok(())
        },
{
    if !same_text(observed_raw.sha256.as_str(), stable_raw.sha256.as_str()) {
        return Err(EngineError::LocalChanged);
    }
    Ok(())
}

/// Checks that the contents of the save on the device did not change during the upload.
pub fn check_contents_unchanged(uploaded: &FileIdentity, observed: &FileIdentity) -> (result:
    Result<(), EngineError>)
    ensures
        result == if observed@.sha256 != uploaded@.sha256 {
            Err::<(), EngineError>(EngineError::LocalChangedSemantically)
        } else {
            Ok(())
        },
{
    if !same_text(observed.sha256.as_str(), uploaded.sha256.as_str()) {
        return Err(EngineError::LocalChangedSemantically);
    }
    Ok(())
}

/// What is known of a version on Steam whose contents are known.
pub open spec fn with_contents(listed: IdentityView, contents: IdentityView) -> IdentityView {
    IdentityView { sha256: contents.sha256, size: contents.size, ..listed }
}

/// The entry of a slot whose version was carried from one side to the other.
pub open spec fn exchanged_entry(
    local: LocalView,
    remote_name: Seq<char>,
    listed: IdentityView,
    contents: IdentityView,
    observed: IdentityView,
    now: u64,
) -> FileStateView {
    FileStateView {
        slot: local.slot,
        local_relative_path: local.relative_path,
        remote_name,
        base_sha256: observed.sha256,
        base_steam_sha1: listed.steam_sha1,
        last_local: observed,
        last_remote: with_contents(listed, contents),
        last_successful_sync_unix_ms: now,
    }
}

/// The entry of a slot whose version was carried from one side to the other.
fn exchanged(
    local: &LocalSave,
    remote_name: &str,
    listed: &FileIdentity,
    contents: &FileIdentity,
    observed: &FileIdentity,
    now: u64,
) -> (entry: FileSyncState)
    ensures
        entry@ == exchanged_entry(local@, remote_name@, listed@, contents@, observed@, now),
{
    let mut remote_identity: FileIdentity = listed.clone();
    remote_identity.sha256 = contents.sha256.clone();
    remote_identity.size = contents.size;
    FileSyncState {
        slot: local.slot,
        local_relative_path: local.relative_path.clone(),
        remote_name: remote_name.to_owned(),
        base_sha256: observed.sha256.clone(),
        base_steam_sha1: listed.steam_sha1.clone(),
        last_local: observed.clone(),
        last_remote: remote_identity,
        last_successful_sync_unix_ms: now,
    }
}

/// An upload has been verified on Steam, and the save on the device is still the uploaded one:
/// it becomes the last common version.
pub fn finish_push(
    state: &mut SyncState,
    local: &LocalSave,
    remote_name: &str,
    verified: &CloudFile,
    uploaded: &FileIdentity,
    observed: &FileIdentity,
    now: u64,
)
    requires
        observed@.sha256 == uploaded@.sha256,
    ensures
        final(state)@ == (SyncView {
            files: upserted(
                old(state)@.files,
                exchanged_entry(
                    local@,
                    remote_name@,
                    verified@.save.identity,
                    uploaded@,
                    observed@,
                    now,
                ),
            ),
            ..old(state)@
        }),
{
    upsert_state(
        state,
        exchanged(local, remote_name, &verified.save.identity, uploaded, observed, now),
    );
}

/// A save on the device is replaced only while that is allowed.
pub fn check_replacement_allowed(replacement_allowed: bool) -> (result: Result<(), EngineError>)
    ensures
        result == if replacement_allowed {
            Ok::<(), EngineError>(())
        } else {
            Err(EngineError::ReplacementNotAllowed)
        },
{
    if !replacement_allowed {
        return Err(EngineError::ReplacementNotAllowed);
    }
    Ok(())
}

/// A replacement has been verified on the device: the version becomes the last common one.
pub fn finish_pull(
    state: &mut SyncState,
    local: &LocalSave,
    remote: &CloudFile,
    contents: &FileIdentity,
    verified: &FileIdentity,
    now: u64,
)
    requires
        verified@.sha256 == contents@.sha256,
    ensures
        final(state)@ == (SyncView {
            files: upserted(
                old(state)@.files,
                exchanged_entry(
                    local@,
                    remote@.request_name,
                    remote@.save.identity,
                    contents@,
                    verified@,
                    now,
                ),
            ),
            ..old(state)@
        }),
{
    upsert_state(
        state,
        exchanged(
            local,
            remote.request_name.as_str(),
            &remote.save.identity,
            contents,
            verified,
            now,
        ),
    );
}

/// Behind a verified transfer the slot's last common version is the one that both sides have,
/// with the SHA-1 that Steam lists for it.
pub proof fn transfer_advances_base(
    files: Seq<FileStateView>,
    local: LocalView,
    remote_name: Seq<char>,
    listed: IdentityView,
    contents: IdentityView,
    observed: IdentityView,
    now: u64,
)
    requires
        observed.sha256 == contents.sha256,
    ensures
        ({
            let entry = exchanged_entry(local, remote_name, listed, contents, observed, now);
            &&& base_of(upserted(files, entry), local.slot) == Some(
                contents.sha256,
            )
            &&& entry.last_local.sha256 == entry.last_remote.sha256
            &&& entry.base_steam_sha1 == listed.steam_sha1
        }),
{
    update_sets_base(
        files,
        exchanged_entry(local, remote_name, listed, contents, observed, now),
    );
}

/// Behind an upload the slot's entry has the SHA-1 of the uploaded bytes: it is taken from the
/// listing in which the upload was found by its name and that SHA-1.
pub proof fn upload_is_recorded_by_its_hash(
    listed: CloudView,
    remote_name: Seq<char>,
    bytes: Seq<u8>,
    local: LocalView,
    contents: IdentityView,
    observed: IdentityView,
    now: u64,
)
    requires
        is_upload(listed, remote_name, sha1_of(bytes)),
    ensures
        ({
            let entry = exchanged_entry(
                local,
                remote_name,
                listed.save.identity,
                contents,
                observed,
                now,
            );
            &&& entry.remote_name == listed.request_name
            &&& entry.base_steam_sha1 == Some(hex_text(sha1_of(bytes)))
            &&& entry.last_remote.steam_sha1 == Some(hex_text(sha1_of(bytes)))
        }),
{
}

/// Whether one of the choices is about the slot.
pub open spec fn awaits_choice(choices: Seq<ChoiceView>, slot: u8) -> bool {
    exists|i: int| 0 <= i < choices.len() && (#[trigger] choices[i]).slot == slot
}

/// Whether one of the choices is about the slot.
fn is_pending(choices: &Vec<PendingChoice>, slot: u8) -> (found: bool)
    ensures
        found == awaits_choice(views(choices@), slot),
{
    let ghost all = views(choices@);
    let mut i: usize = 0;
    while i < choices.len()
        invariant
            i <= choices@.len(),
            all == views(choices@),
            forall|k: int| 0 <= k < i ==> (#[trigger] all[k]).slot != slot,
        decreases choices@.len() - i,
    {
        assert(all[i as int] == choices@[i as int]@);
        if choices[i].slot == slot {
            return true;
        }
        i += 1;
    }
    false
}

/// Whether the user may decide a slot: it is not excluded and, where that is asked for, waits for
/// a choice.
pub open spec fn force_outcome(
    slot: u8,
    excluded: Set<u8>,
    must_be_pending: bool,
    choices: Seq<ChoiceView>,
) -> Result<(), EngineError> {
    if excluded.contains(slot) {
        Err(EngineError::Excluded(slot))
    } else if must_be_pending && !awaits_choice(choices, slot) {
        Err(EngineError::NotPending)
    } else {
        Ok(())
    }
}

/// Checks that the user may decide a slot.
pub fn check_force(
    slot: u8,
    excluded: &BTreeSet<u8>,
    must_be_pending: bool,
    choices: &Vec<PendingChoice>,
) -> (result: Result<(), EngineError>)
    ensures
        result == force_outcome(slot, excluded@, must_be_pending, views(choices@)),
{
    if excluded.contains(&slot) {
        return Err(EngineError::Excluded(slot));
    }
    if must_be_pending && !is_pending(choices, slot) {
        return Err(EngineError::NotPending);
    }
    Ok(())
}

/// The first save of a slot.
pub open spec fn local_of_slot(saves: Seq<LocalView>, slot: u8) -> Option<LocalView>
    decreases saves.len(),
{
    if saves.len() == 0 {
        None
    } else if saves[0].slot == slot {
        Some(saves[0])
    } else {
        local_of_slot(saves.drop_first(), slot)
    }
}

/// The save on the device that the user decides about.
pub fn local_for_slot(saves: &Vec<LocalSave>, slot: u8) -> (result: Result<&LocalSave, EngineError>)
    ensures
        match result {
            Ok(save) => local_of_slot(views(saves@), slot) == Some(save@),
            Err(error) => local_of_slot(views(saves@), slot) is None && error
                == EngineError::LocalSlotNotFound,
        },
{
    let ghost all = views(saves@);
    let mut i: usize = 0;
    assert(all.skip(0) =~= all);
    while i < saves.len()
        invariant
            i <= saves@.len(),
            all == views(saves@),
            local_of_slot(all, slot) == local_of_slot(all.skip(i as int), slot),
        decreases saves@.len() - i,
    {
        assert(all.skip(i as int)[0] == saves@[i as int]@);
        assert(all.skip(i as int).drop_first() =~= all.skip(i + 1));
        if saves[i].slot == slot {
            return Ok(&saves[i]);
        }
        i += 1;
    }
    Err(EngineError::LocalSlotNotFound)
}

/// The name that the first choice about a slot has for Steam.
pub open spec fn chosen_name(choices: Seq<ChoiceView>, slot: u8) -> Option<Seq<char>>
    decreases choices.len(),
{
    if choices.len() == 0 {
        None
    } else if choices[0].slot == slot {
        Some(choices[0].remote_name)
    } else {
        chosen_name(choices.drop_first(), slot)
    }
}

/// The name of a new file on Steam for a save of the device: the one that the user was shown,
/// or else the one that was used before, or else the save's own.
pub open spec fn new_name(
    choices: Seq<ChoiceView>,
    files: Seq<FileStateView>,
    local: LocalView,
) -> Seq<char> {
    match chosen_name(choices, local.slot) {
        Some(name) => name,
        None => match entry_for(files, local.slot) {
            Some(entry) => entry.remote_name,
            None => file_name_of(local),
        },
    }
}

/// The name of a new file on Steam for a save of the device.
pub fn new_remote_name(choices: &Vec<PendingChoice>, state: &SyncState, local: &LocalSave) -> (name:
    String)
    ensures
        name@ == new_name(views(choices@), state@.files, local@),
{
    let slot: u8 = local.slot;
    let ghost all = views(choices@);
    let mut i: usize = 0;
    assert(all.skip(0) =~= all);
    while i < choices.len()
        invariant
            i <= choices@.len(),
            all == views(choices@),
            slot == local@.slot,
            chosen_name(all, slot) == chosen_name(all.skip(i as int), slot),
        decreases choices@.len() - i,
    {
        assert(all.skip(i as int)[0] == choices@[i as int]@);
        assert(all.skip(i as int).drop_first() =~= all.skip(i + 1));
        if choices[i].slot == slot {
            return choices[i].remote_name.clone();
        }
        i += 1;
    }
    match prior_entry(state, slot) {
        Some(entry) => entry.remote_name.clone(),
        None => local_file_name(local),
    }
}

/// A save on the device in the order of slots.
#[derive(Debug)]
pub struct BySlot {
    pub save: LocalSave,
}

impl View for BySlot {
    type V = LocalView;

    open spec fn view(&self) -> LocalView {
        self.save@
    }
}

impl Ranked for BySlot {
    open spec fn precedes(a: LocalView, b: LocalView) -> bool {
        a.slot < b.slot
    }

    fn is_before(&self, other: &Self) -> (before: bool) {
        self.save.slot < other.save.slot
    }

    proof fn precedes_orders(a: LocalView, b: LocalView, c: LocalView) {
    }
}

/// The saves of other slots.
pub open spec fn other_saves(saves: Seq<LocalView>, slot: u8) -> Seq<LocalView> {
    saves.filter(|save: LocalView| save.slot != slot)
}

/// The saves with `restored` in place of those of its slot, by slot.
pub open spec fn with_restored(saves: Seq<LocalView>, restored: LocalView) -> Seq<LocalView> {
    sorted_form::<BySlot>(other_saves(saves, restored.slot).push(restored))
}

/// Puts a restored save in place of those of its slot among the saves that were found before
/// the game started.
pub fn merge_restored(saves: Vec<LocalSave>, restored: LocalSave) -> (merged: Vec<LocalSave>)
    ensures
        views(merged@) == with_restored(views(saves@), restored@),
{
    let ghost all = views(saves@);
    let slot: u8 = restored.slot;
    let ghost wanted = |save: LocalView| save.slot != slot;
    let mut kept: Vec<BySlot> = Vec::new();
    let mut i: usize = 0;
    proof {
        reveal(Seq::filter);
        assert(views(kept@) =~= all.take(0).filter(wanted));
    }
    while i < saves.len()
        invariant
            i <= saves@.len(),
            all == views(saves@),
            wanted == (|save: LocalView| save.slot != slot),
            views(kept@) == all.take(i as int).filter(wanted),
        decreases saves@.len() - i,
    {
        let ghost held = kept@;
        proof {
            reveal(Seq::filter);
            let upto = all.take(i + 1);
            assert(upto.drop_last() =~= all.take(i as int));
            assert(upto.last() == saves@[i as int]@);
        }
        if saves[i].slot != slot {
            assert(wanted(saves@[i as int]@));
            let save: BySlot = BySlot { save: saves[i].clone() };
            kept.push(save);
            assert(views(kept@) =~= views(held).push(saves@[i as int]@));
        }
        i += 1;
    }
    assert(all.take(i as int) =~= all);
    let ghost held = kept@;
    let ghost view = restored@;
    kept.push(BySlot { save: restored });
    assert(views(kept@) =~= views(held).push(view));
    let sorted: Vec<BySlot> = stable_sort(kept);
    let mut merged: Vec<LocalSave> = Vec::new();
    let mut k: usize = 0;
    while k < sorted.len()
        invariant
            k <= sorted@.len(),
            merged@.len() == k,
            forall|j: int| 0 <= j < k ==> (#[trigger] merged@[j])@ == sorted@[j]@,
        decreases sorted@.len() - k,
    {
        merged.push(sorted[k].save.clone());
        k += 1;
    }
    assert(views(merged@) =~= views(sorted@));
    merged
}

/// A restored save is the only one of its slot behind the restoration, and every other slot
/// keeps its saves.
pub proof fn restoration_replaces_one_slot(saves: Seq<LocalView>, restored: LocalView)
    ensures
        forall|save: LocalView| #[trigger]
            with_restored(saves, restored).contains(save) <==> save == restored || (saves.contains(
                save,
            ) && save.slot != restored.slot),
{
    broadcast use vstd::seq_lib::group_to_multiset_ensures;
    broadcast use vstd::seq_lib::group_filter_ensures;

    let wanted = |save: LocalView| save.slot != restored.slot;
    let kept = other_saves(saves, restored.slot);
    let unsorted = kept.push(restored);
    let merged = with_restored(saves, restored);
    sorting_orders::<BySlot>(unsorted);
    assert forall|save: LocalView| #[trigger] merged.contains(save) <==> save == restored || (
    saves.contains(save) && wanted(save)) by {
        assert(merged.to_multiset().count(save) > 0 <==> merged.contains(save));
        assert(unsorted.to_multiset().count(save) > 0 <==> unsorted.contains(save));
        assert(unsorted[kept.len() as int] == restored);
        if kept.contains(save) {
            let i = choose|i: int| 0 <= i < kept.len() && kept[i] == save;
            assert(unsorted[i] == save);
            assert(wanted(kept[i]));
            saves.lemma_filter_contains_rev(wanted, save);
        }
        if unsorted.contains(save) && save != restored {
            let i = choose|i: int| 0 <= i < unsorted.len() && unsorted[i] == save;
            assert(kept[i] == save);
        }
        if saves.contains(save) && wanted(save) {
            let i = choose|i: int| 0 <= i < saves.len() && saves[i] == save;
            assert(kept.contains(saves[i]));
        }
    }
}

} // verus!
