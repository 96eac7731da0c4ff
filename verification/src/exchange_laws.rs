//! In which layout a save is uploaded, and under which name, told by the names themselves.
use vstd::prelude::*;

use crate::bytes::le_u32;
use crate::cloud_laws::{plain_names_lack_marks, save_name};
use crate::digest::{hex_text, sha1_of, sha256_of};
use crate::engine::EngineError;
use crate::exchange::{
    exchanged_entry, force_outcome, new_name, other_saves, restoration_replaces_one_slot, upload_of,
    wants_rep_plus, with_restored, BySlot,
};
use crate::isaac_format::{canonical_form, is_canonical, rep_plus_form, SaveEncoding, SaveError};
use crate::isaac_format_laws::{canonical_form_is_stable, conversions_are_settled};
use crate::lookup_laws::{chosen_name_is_of_the_first_choice, entry_is_the_first_of_its_slot};
use crate::model::{FileStateView, IdentityView, LocalView};
use crate::order::{sorting_orders, Ranked};
use crate::status::ChoiceView;
use crate::text::{ascii_lower, contains_text, stands_at};

verus! {

proof fn lower_of_joined(dir: Seq<char>, file: Seq<char>)
    ensures
        ascii_lower(dir + file) == ascii_lower(dir) + ascii_lower(file),
{
    assert(ascii_lower(dir + file) =~= ascii_lower(dir) + ascii_lower(file));
}

proof fn rep_plus_names_want_rep_plus(dir: Seq<char>, file: Seq<char>, slot: u8)
    requires
        1 <= slot <= 3,
        ascii_lower(file) == save_name("rep+"@, slot),
    ensures
        wants_rep_plus(dir + file),
{
    reveal_strlit("rep+");
    reveal_strlit("persistentgamedata");
    reveal_strlit(".dat");
    reveal_strlit("rep+persistentgamedata");
    lower_of_joined(dir, file);
    let whole = ascii_lower(dir + file);
    let at = dir.len() as int;
    assert(whole.subrange(at, at + 22) =~= "rep+persistentgamedata"@);
    assert(stands_at(whole, "rep+persistentgamedata"@, at));
}

proof fn other_names_do_not(dir: Seq<char>, file: Seq<char>, slot: u8)
    requires
        1 <= slot <= 3,
        ascii_lower(file) == save_name("rep_"@, slot) || ascii_lower(file) == save_name(""@, slot),
        dir.len() == 0 || dir.last() == '/' || dir.last() == '\\',
        !contains_text(ascii_lower(dir), "rep+persistentgamedata"@),
    ensures
        !wants_rep_plus(dir + file),
{
    reveal_strlit("rep+persistentgamedata");
    plain_names_lack_marks(slot);
    lower_of_joined(dir, file);
    let part = "rep+persistentgamedata"@;
    let (whole, front) = (ascii_lower(dir + file), ascii_lower(dir));
    if contains_text(whole, part) {
        let at = choose|at: int| #[trigger] stands_at(whole, part, at);
        let end = front.len() as int;
        assert(whole.subrange(at, at + 22) == part);
        if at + 22 <= end {
            assert(front.subrange(at, at + 22) =~= part);
            assert(stands_at(front, part, at));
        } else if at >= end {
            assert(part[3] == whole[at + 3]);
            assert(whole[at + 3] == ascii_lower(file)[at + 3 - end]);
        } else {
            assert(part[end - 1 - at] == whole[end - 1]);
            assert(whole[end - 1] == front[end - 1]);
            assert(front[end - 1] == dir.last());
        }
    }
}

/// The name of the file on Steam decides the layout of an upload, in either case of letters and
/// wherever the file lies. Under the Repentance+ name of a slot a save is uploaded in the
/// Repentance+ layout, with 642 achievements or more. Under any other name of a slot its canonical
/// form is uploaded as it is.
pub proof fn names_decide_the_layout(
    staged: Seq<u8>,
    modified_unix_ms: Option<u64>,
    dir: Seq<char>,
    file: Seq<char>,
    slot: u8,
)
    requires
        1 <= slot <= 3,
    ensures
        ascii_lower(file) == save_name("rep+"@, slot) ==> match upload_of(
            staged,
            modified_unix_ms,
            dir + file,
        ) {
            Ok(upload) => rep_plus_form(staged) == Ok::<Seq<u8>, SaveError>(upload.bytes)
                && is_canonical(upload.bytes) && le_u32(upload.bytes, 28) >= 642,
            Err(error) => rep_plus_form(staged) == Err::<Seq<u8>, SaveError>(error),
        },
        (ascii_lower(file) == save_name("rep_"@, slot) || ascii_lower(file) == save_name(""@, slot))
            && (dir.len() == 0 || dir.last() == '/' || dir.last() == '\\') && !contains_text(
            ascii_lower(dir),
            "rep+persistentgamedata"@,
        ) ==> match upload_of(staged, modified_unix_ms, dir + file) {
            Ok(upload) => canonical_form(staged) matches Ok((data, _)) && upload.bytes == data,
            Err(error) => canonical_form(staged) == Err::<(Seq<u8>, SaveEncoding), SaveError>(
                error,
            ),
        },
{
    conversions_are_settled(staged);
    canonical_form_is_stable(staged);
    if ascii_lower(file) == save_name("rep+"@, slot) {
        rep_plus_names_want_rep_plus(dir, file, slot);
    }
    if (ascii_lower(file) == save_name("rep_"@, slot) || ascii_lower(file) == save_name(""@, slot))
        && (dir.len() == 0 || dir.last() == '/' || dir.last() == '\\') && !contains_text(
        ascii_lower(dir),
        "rep+persistentgamedata"@,
    ) {
        other_names_do_not(dir, file, slot);
    }
}

/// An upload is known by its canonical form, whatever layout Steam gets: by the SHA-256, the size
/// and the SHA-1 of that, and by the time of the file. Whether the device's encoding was undone
/// is told too.
pub proof fn uploads_are_known_by_their_canonical_form(
    staged: Seq<u8>,
    modified_unix_ms: Option<u64>,
    remote_name: Seq<char>,
)
    ensures
        upload_of(staged, modified_unix_ms, remote_name) matches Ok(upload) ==> (canonical_form(
            staged,
        ) matches Ok((data, encoding)) && {
            &&& upload.identity.sha256 == hex_text(sha256_of(data))
            &&& upload.identity.steam_sha1 == Some(hex_text(sha1_of(data)))
            &&& upload.identity.size == data.len() as u64
            &&& upload.identity.modified_unix_ms == modified_unix_ms
            &&& upload.decoded == (encoding == SaveEncoding::IosRawLz4)
        }),
{
}

/// The name of a new file on Steam is the one that the user was shown for the slot, and where
/// nothing was shown the one that is remembered, and where nothing is remembered the name of the
/// save's own file.
pub proof fn new_files_are_named_after_what_is_known(
    choices: Seq<ChoiceView>,
    files: Seq<FileStateView>,
    local: LocalView,
    i: int,
)
    ensures
        0 <= i < choices.len() && choices[i].slot == local.slot && (forall|k: int|
            0 <= k < i ==> (#[trigger] choices[k]).slot != local.slot) ==> new_name(
            choices,
            files,
            local,
        ) == choices[i].remote_name,
        (forall|k: int| 0 <= k < choices.len() ==> (#[trigger] choices[k]).slot != local.slot) && 0
            <= i < files.len() && files[i].slot == local.slot && (forall|k: int|
            0 <= k < i ==> (#[trigger] files[k]).slot != local.slot) ==> new_name(
            choices,
            files,
            local,
        ) == files[i].remote_name,
        (forall|k: int| 0 <= k < choices.len() ==> (#[trigger] choices[k]).slot != local.slot) && (
        forall|k: int| 0 <= k < files.len() ==> (#[trigger] files[k]).slot != local.slot)
            && local.path.len() > 0 ==> new_name(choices, files, local) == local.path[local.path.len()
            - 1].text,
{
    chosen_name_is_of_the_first_choice(choices, local.slot);
    entry_is_the_first_of_its_slot(files, local.slot);
}

/// What is remembered of a transfer: the slot, where the save lies on the device and on Steam,
/// what was seen on the device last as the last common version, and Steam's version with the time
/// and the SHA-1 that Steam lists.
pub proof fn transfers_are_remembered(
    local: LocalView,
    remote_name: Seq<char>,
    listed: IdentityView,
    contents: IdentityView,
    observed: IdentityView,
    now: u64,
)
    ensures
        ({
            let entry = exchanged_entry(local, remote_name, listed, contents, observed, now);
            &&& entry.slot == local.slot && entry.remote_name == remote_name
            &&& entry.local_relative_path == local.relative_path
            &&& entry.base_sha256 == observed.sha256 && entry.last_local == observed
            &&& entry.base_steam_sha1 == listed.steam_sha1
            &&& entry.last_remote.sha256 == contents.sha256
            &&& entry.last_remote.size == contents.size
            &&& entry.last_remote.steam_sha1 == listed.steam_sha1
            &&& entry.last_remote.modified_unix_ms == listed.modified_unix_ms
            &&& entry.last_successful_sync_unix_ms == now
        }),
{
}

/// The user may decide a slot exactly where it is not excluded and, if a question is needed, a
/// question about it is open.
pub proof fn decisions_need_an_open_question(
    slot: u8,
    excluded: Set<u8>,
    must_be_pending: bool,
    choices: Seq<ChoiceView>,
)
    ensures
        ({
            let open = exists|i: int| 0 <= i < choices.len() && (#[trigger] choices[i]).slot == slot;
            let outcome = force_outcome(slot, excluded, must_be_pending, choices);
            &&& outcome is Ok <==> !excluded.contains(slot) && (open || !must_be_pending)
            &&& excluded.contains(slot) ==> outcome == Err::<(), EngineError>(
                EngineError::Excluded(slot),
            )
            &&& !excluded.contains(slot) && must_be_pending && !open ==> outcome == Err::<
                (),
                EngineError,
            >(EngineError::NotPending)
        }),
{
}

/// A restored save takes the place of those of its slot, and the saves come by their slots.
pub proof fn restored_saves_come_by_slot(saves: Seq<LocalView>, restored: LocalView, save: LocalView)
    ensures
        with_restored(saves, restored).contains(save) <==> save == restored || (saves.contains(save)
            && save.slot != restored.slot),
        forall|i: int, j: int|
            0 <= i < j < with_restored(saves, restored).len() ==> (#[trigger] with_restored(
                saves,
                restored,
            )[i]).slot <= (#[trigger] with_restored(saves, restored)[j]).slot,
{
    restoration_replaces_one_slot(saves, restored);
    let all = other_saves(saves, restored.slot).push(restored);
    sorting_orders::<BySlot>(all);
    let merged = with_restored(saves, restored);
    assert forall|i: int, j: int| 0 <= i < j < merged.len() implies (#[trigger] merged[i]).slot <= (
    #[trigger] merged[j]).slot by {
        assert(!BySlot::precedes(merged[j], merged[i]));
    }
}

} // verus!
