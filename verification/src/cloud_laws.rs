//! Which saves Steam's list of files holds, told by the files themselves.
use vstd::prelude::*;

use crate::cloud::{
    base_name, chosen_saves, is_separator, listed_identity, listed_save, listed_saves, listing_of,
    newest_generation_stands_for_slot, request_name_of, save_for_slot, save_priority, saves_by_slot,
    supersedes, time_of, AppFileView, Changelist, CloudError, CloudView,
};
use crate::digest::hex_text;
use crate::order::views;
use crate::slots::{slot_name, slot_of, slots_are_distinct, slots_go_by_name};
use crate::text::{ascii_lower, contains_text, decimal, stands_at};

verus! {

/// The name of a slot's save behind the prefix of its generation.
pub open spec fn save_name(prefix: Seq<char>, slot: u8) -> Seq<char> {
    prefix + "persistentgamedata"@ + seq![('0' as int + slot) as char] + ".dat"@
}

/// The generation of a slot's save by its name, whatever its case: 3 for Repentance+, 2 for
/// Repentance, 1 for the first, and 0 for what is no save of the slot.
pub open spec fn generation(filename: Seq<char>, slot: u8) -> int {
    let lower = ascii_lower(filename);
    if lower == save_name("rep+"@, slot) {
        3
    } else if lower == save_name("rep_"@, slot) {
        2
    } else if lower == save_name(""@, slot) {
        1
    } else {
        0
    }
}

proof fn names_by_digit(prefix: Seq<char>, slot: u8)
    requires
        slot < 10,
    ensures
        slot_name(prefix, slot) == save_name(prefix, slot),
{
    assert(decimal(slot as nat) =~= seq![('0' as int + slot) as char]);
}

/// Whether none of the characters is this one.
pub open spec fn lacks(text: Seq<char>, c: char) -> bool {
    forall|i: int| 0 <= i < text.len() ==> #[trigger] text[i] != c
}

/// The names of the saves hold no separators, and those without a plus sign or an underscore in
/// their prefix hold none.
pub proof fn plain_names_lack_marks(slot: u8)
    requires
        1 <= slot <= 3,
    ensures
        lacks(save_name("rep_"@, slot), '+'),
        lacks(save_name(""@, slot), '+'),
        lacks(save_name(""@, slot), '_'),
        lacks(save_name("rep+"@, slot), '/') && lacks(save_name("rep+"@, slot), '\\'),
        lacks(save_name("rep_"@, slot), '/') && lacks(save_name("rep_"@, slot), '\\'),
        lacks(save_name(""@, slot), '/') && lacks(save_name(""@, slot), '\\'),
        save_name("rep+"@, slot).len() == 27,
        save_name("rep_"@, slot).len() == 27,
        save_name(""@, slot).len() == 23,
        save_name("rep+"@, slot)[3] == '+',
        save_name("rep_"@, slot)[3] == '_',
{
    reveal_strlit("rep+");
    reveal_strlit("rep_");
    reveal_strlit("");
    reveal_strlit("persistentgamedata");
    reveal_strlit(".dat");
}

proof fn contained_marks(text: Seq<char>)
    ensures
        lacks(text, '+') ==> !contains_text(text, "rep+persistentgamedata"@),
        lacks(text, '_') ==> !contains_text(text, "rep_persistentgamedata"@),
{
    reveal_strlit("rep+persistentgamedata");
    reveal_strlit("rep_persistentgamedata");
    if lacks(text, '+') && contains_text(text, "rep+persistentgamedata"@) {
        let at = choose|at: int| #[trigger] stands_at(text, "rep+persistentgamedata"@, at);
        assert(text.subrange(at, at + 22)[3] == '+');
    }
    if lacks(text, '_') && contains_text(text, "rep_persistentgamedata"@) {
        let at = choose|at: int| #[trigger] stands_at(text, "rep_persistentgamedata"@, at);
        assert(text.subrange(at, at + 22)[3] == '_');
    }
}

proof fn prefixed_names_contain_marks(slot: u8)
    requires
        1 <= slot <= 3,
    ensures
        contains_text(save_name("rep+"@, slot), "rep+persistentgamedata"@),
        contains_text(save_name("rep_"@, slot), "rep_persistentgamedata"@),
{
    reveal_strlit("rep+");
    reveal_strlit("rep_");
    reveal_strlit("persistentgamedata");
    reveal_strlit(".dat");
    reveal_strlit("rep+persistentgamedata");
    reveal_strlit("rep_persistentgamedata");
    assert(save_name("rep+"@, slot).subrange(0, 22) =~= "rep+persistentgamedata"@);
    assert(save_name("rep_"@, slot).subrange(0, 22) =~= "rep_persistentgamedata"@);
    assert(stands_at(save_name("rep+"@, slot), "rep+persistentgamedata"@, 0));
    assert(stands_at(save_name("rep_"@, slot), "rep_persistentgamedata"@, 0));
}

proof fn priority_is_generation(filename: Seq<char>, slot: u8)
    requires
        1 <= slot <= 3,
        generation(filename, slot) > 0,
    ensures
        save_priority(filename) == generation(filename, slot),
{
    plain_names_lack_marks(slot);
    contained_marks(ascii_lower(filename));
    prefixed_names_contain_marks(slot);
}

proof fn slot_is_by_generation(filename: Seq<char>, slot: u8)
    ensures
        slot_of(filename) == Some(slot) <==> 1 <= slot <= 3 && generation(filename, slot) > 0,
{
    slots_go_by_name(filename, slot);
    if 1 <= slot <= 3 {
        names_by_digit("rep+"@, slot);
        names_by_digit("rep_"@, slot);
        names_by_digit(""@, slot);
    }
}

/// Whether `part` is what stands behind the last separator of a path, which is a slash of either
/// kind.
pub open spec fn is_last_part(path: Seq<char>, part: Seq<char>) -> bool {
    let start = path.len() - part.len();
    &&& start >= 0
    &&& path.skip(start) == part
    &&& forall|i: int| 0 <= i < part.len() ==> #[trigger] part[i] != '/' && part[i] != '\\'
    &&& start > 0 ==> path[start - 1] == '/' || path[start - 1] == '\\'
}

proof fn base_name_is_last_part(path: Seq<char>)
    ensures
        is_last_part(path, base_name(path)),
    decreases path.len(),
{
    if path.len() == 0 || is_separator(path.last()) {
        assert(path.skip(path.len() as int) =~= Seq::<char>::empty());
    } else {
        let before = path.drop_last();
        base_name_is_last_part(before);
        let part = base_name(before);
        let start = before.len() - part.len();
        assert(path.skip(start) =~= before.skip(start).push(path.last()));
        if start > 0 {
            assert(path[start - 1] == before[start - 1]);
        }
    }
}

proof fn last_part_is_unique(path: Seq<char>, a: Seq<char>, b: Seq<char>)
    requires
        is_last_part(path, a),
        is_last_part(path, b),
    ensures
        a == b,
{
    if a.len() < b.len() {
        let at = path.len() - a.len() - 1;
        assert(b[at - (path.len() - b.len())] == path[at]);
    } else if b.len() < a.len() {
        let at = path.len() - b.len() - 1;
        assert(a[at - (path.len() - a.len())] == path[at]);
    }
}

/// Whether `path` is a file's name behind the path prefix that its index says, with a slash in
/// between unless the prefix is empty or ends with one of either kind. A file without an index,
/// or with one beyond the prefixes, has an empty prefix.
pub open spec fn is_path_of(
    file: AppFileView,
    prefixes: Seq<Seq<char>>,
    prefix: Seq<char>,
    path: Seq<char>,
) -> bool {
    let name = match file.file_name {
        Some(name) => name,
        None => Seq::empty(),
    };
    &&& match file.path_prefix_index {
        Some(index) => prefix == if index < prefixes.len() {
            prefixes[index as int]
        } else {
            Seq::empty()
        },
        None => prefix.len() == 0,
    }
    &&& path == (if prefix.len() == 0 || prefix.last() == '/' || prefix.last() == '\\' {
        prefix + name
    } else {
        prefix.push('/') + name
    })
}

/// Whether a listed file is this save: it has not been deleted, what stands behind the last
/// separator of its path is the name of a slot's save, and all that is known of it is its size,
/// its time in milliseconds and its SHA-1.
pub open spec fn is_save_of(file: AppFileView, prefixes: Seq<Seq<char>>, save: CloudView) -> bool {
    &&& file.persist_state is None || file.persist_state == Some(0i32)
    &&& is_path_of(file, prefixes, save.save.path_prefix, save.request_name)
    &&& is_last_part(save.request_name, save.save.filename)
    &&& 1 <= save.save.slot <= 3
    &&& generation(save.save.filename, save.save.slot) > 0
    &&& save.raw == file
    &&& save.save.identity.sha256.len() == 0
    &&& file.raw_file_size matches Some(size) ==> save.save.identity.size == size
    &&& file.raw_file_size is None ==> save.save.identity.size == 0
    &&& file.time_stamp is None <==> save.save.identity.modified_unix_ms is None
    &&& file.time_stamp matches Some(seconds) ==> (save.save.identity.modified_unix_ms matches Some(
        millis,
    ) && (seconds * 1000 <= u64::MAX ==> millis == seconds * 1000) && (seconds * 1000 > u64::MAX
        ==> millis == u64::MAX))
    &&& file.sha_file is None <==> save.save.identity.steam_sha1 is None
    &&& file.sha_file matches Some(sha) ==> save.save.identity.steam_sha1 == Some(hex_text(sha))
}

/// A listed file is taken for a save exactly where it is one, and then for that one.
pub proof fn listed_files_are_saves(file: AppFileView, prefixes: Seq<Seq<char>>)
    ensures
        listed_save(file, prefixes) matches Some(save) ==> is_save_of(file, prefixes, save),
        forall|save: CloudView| #[trigger]
            is_save_of(file, prefixes, save) ==> listed_save(file, prefixes) == Some(save),
{
    reveal_strlit("/");
    let path = request_name_of(file, prefixes);
    let name = match file.file_name {
        Some(name) => name,
        None => Seq::empty(),
    };
    base_name_is_last_part(path);
    assert forall|prefix: Seq<char>|
        #![trigger prefix.push('/')]
        prefix + "/"@ + name =~= prefix.push('/') + name by {}
    assert(Seq::<char>::empty() + name =~= name);
    if let Some(save) = listed_save(file, prefixes) {
        slot_is_by_generation(save.save.filename, save.save.slot);
        slots_are_distinct(save.save.filename, 1);
        let prefix = save.save.path_prefix;
        assert(prefix.len() == 0 ==> prefix + name =~= name);
        assert(prefix + "/"@ + name =~= prefix.push('/') + name);
        assert(is_path_of(file, prefixes, prefix, path));
    }
    assert forall|save: CloudView| #[trigger] is_save_of(file, prefixes, save) implies listed_save(
        file,
        prefixes,
    ) == Some(save) by {
        let prefix = save.save.path_prefix;
        assert(prefix + "/"@ + name =~= prefix.push('/') + name);
        if let Some(index) = file.path_prefix_index {
            if index < prefixes.len() {
                assert(prefix == prefixes[index as int]);
            }
        } else {
            assert(prefix =~= Seq::<char>::empty());
        }
        assert(prefix.len() == 0 ==> prefix + name =~= name);
        assert(save.request_name == path);
        last_part_is_unique(path, save.save.filename, base_name(path));
        slot_is_by_generation(save.save.filename, save.save.slot);
        assert(save.save.identity.sha256 =~= Seq::<char>::empty());
        assert(save.save.identity.modified_unix_ms == time_of(file));
        assert(save.save.identity == listed_identity(file));
    }
}

/// The positions of the files that are saves among the first `count`.
spec fn save_positions(files: Seq<AppFileView>, prefixes: Seq<Seq<char>>, count: int) -> Seq<int>
    decreases count,
{
    if count <= 0 {
        seq![]
    } else if listed_save(files[count - 1], prefixes) is Some {
        save_positions(files, prefixes, count - 1).push(count - 1)
    } else {
        save_positions(files, prefixes, count - 1)
    }
}

proof fn save_positions_fit(files: Seq<AppFileView>, prefixes: Seq<Seq<char>>, count: int)
    requires
        0 <= count <= files.len(),
    ensures
        ({
            let at = save_positions(files, prefixes, count);
            let saves = listed_saves(files, prefixes, count);
            &&& at.len() == saves.len()
            &&& forall|k: int|
                0 <= k < at.len() ==> 0 <= #[trigger] at[k] < count && listed_save(
                    files[at[k]],
                    prefixes,
                ) == Some(saves[k])
            &&& forall|k: int, l: int| 0 <= k < l < at.len() ==> #[trigger] at[k] < #[trigger] at[l]
            &&& forall|i: int|
                0 <= i < count && (#[trigger] listed_save(files[i], prefixes)) is Some
                    ==> at.contains(i)
        }),
    decreases count,
{
    if count > 0 {
        save_positions_fit(files, prefixes, count - 1);
        let before = save_positions(files, prefixes, count - 1);
        let at = save_positions(files, prefixes, count);
        assert forall|i: int|
            0 <= i < count && (#[trigger] listed_save(files[i], prefixes))
                is Some implies at.contains(i) by {
            if i < count - 1 {
                assert(before.contains(i));
                let k = choose|k: int| 0 <= k < before.len() && before[k] == i;
                assert(at[k] == i);
            } else {
                assert(at[at.len() - 1] == i);
            }
        }
    }
}

/// The time of a save in milliseconds, 0 where it has none.
pub open spec fn millis_of(save: CloudView) -> int {
    match save.save.identity.modified_unix_ms {
        Some(millis) => millis as int,
        None => 0,
    }
}

/// Whether the save from the `j`-th file, `save`, is the best of its slot: no other file is a save
/// of the slot of a newer generation, or of the same generation and newer, or of the same and
/// listed before.
pub open spec fn is_best_of_slot(
    files: Seq<AppFileView>,
    prefixes: Seq<Seq<char>>,
    j: int,
    save: CloudView,
) -> bool {
    &&& 0 <= j < files.len()
    &&& is_save_of(files[j], prefixes, save)
    &&& forall|i: int, other: CloudView|
        0 <= i < files.len() && #[trigger] is_save_of(files[i], prefixes, other) && other.save.slot
            == save.save.slot ==> {
            let (old, new) = (
                generation(other.save.filename, save.save.slot),
                generation(save.save.filename, save.save.slot),
            );
            ||| old < new
            ||| old == new && millis_of(other) < millis_of(save)
            ||| old == new && millis_of(other) == millis_of(save) && j <= i
        }
}

/// Whether one of the files is a save of the slot.
pub open spec fn some_file_is_of_slot(
    files: Seq<AppFileView>,
    prefixes: Seq<Seq<char>>,
    slot: u8,
) -> bool {
    exists|i: int, save: CloudView|
        0 <= i < files.len() && #[trigger] is_save_of(files[i], prefixes, save) && save.save.slot
            == slot
}

proof fn best_of_slot(files: Seq<AppFileView>, prefixes: Seq<Seq<char>>, slot: u8)
    requires
        1 <= slot <= 3,
    ensures
        ({
            let saves = listed_saves(files, prefixes, files.len() as int);
            match save_for_slot(saves, slot) {
                Some(save) => save.save.slot == slot && exists|j: int| #[trigger]
                    is_best_of_slot(files, prefixes, j, save),
                None => !some_file_is_of_slot(files, prefixes, slot),
            }
        }),
{
    let count = files.len() as int;
    let saves = listed_saves(files, prefixes, count);
    let at = save_positions(files, prefixes, count);
    save_positions_fit(files, prefixes, count);
    newest_generation_stands_for_slot(saves, slot);
    assert forall|i: int, other: CloudView|
        0 <= i < files.len() && #[trigger] is_save_of(files[i], prefixes, other) implies exists|
        k: int,
    |
        0 <= k < saves.len() && #[trigger] at[k] == i && saves[k] == other by {
        listed_files_are_saves(files[i], prefixes);
        assert(at.contains(i));
        let k = choose|k: int| 0 <= k < at.len() && at[k] == i;
        assert(saves[k] == other);
    }
    match save_for_slot(saves, slot) {
        Some(best) => {
            let m = choose|m: int|
                0 <= m < saves.len() && #[trigger] saves[m] == best && best.save.slot == slot && (
                forall|j: int|
                    0 <= j < saves.len() && (#[trigger] saves[j]).save.slot == slot
                        ==> !supersedes(saves[j], best) && (j < m
                        ==> supersedes(best, saves[j])));
            let j = at[m];
            listed_files_are_saves(files[j], prefixes);
            assert(is_save_of(files[j], prefixes, best));
            priority_is_generation(best.save.filename, slot);
            assert forall|i: int, other: CloudView|
                0 <= i < files.len() && #[trigger] is_save_of(files[i], prefixes, other)
                    && other.save.slot == slot implies ({
                let (old, new) = (
                    generation(other.save.filename, slot),
                    generation(best.save.filename, slot),
                );
                ||| old < new
                ||| old == new && millis_of(other) < millis_of(best)
                ||| old == new && millis_of(other) == millis_of(best) && j <= i
            }) by {
                let k = choose|k: int|
                    0 <= k < saves.len() && #[trigger] at[k] == i && saves[k] == other;
                priority_is_generation(other.save.filename, slot);
                assert(saves[k].save.slot == slot);
                if k > m {
                    assert(at[m] < at[k]);
                }
            }
            assert(is_best_of_slot(files, prefixes, j, best));
        },
        None => {
            if some_file_is_of_slot(files, prefixes, slot) {
                let (i, other) = choose|i: int, save: CloudView|
                    0 <= i < files.len() && #[trigger] is_save_of(files[i], prefixes, save)
                        && save.save.slot == slot;
                let k = choose|k: int|
                    0 <= k < saves.len() && #[trigger] at[k] == i && saves[k] == other;
                assert(saves[k].save.slot != slot);
            }
        },
    }
}

/// Whether `chosen` are the best saves of the slots below `limit`, in ascending order.
pub open spec fn are_best_saves(
    files: Seq<AppFileView>,
    prefixes: Seq<Seq<char>>,
    chosen: Seq<CloudView>,
    limit: int,
) -> bool {
    &&& forall|k: int|
        0 <= k < chosen.len() ==> 1 <= (#[trigger] chosen[k]).save.slot < limit && exists|j: int|
            #[trigger] is_best_of_slot(files, prefixes, j, chosen[k])
    &&& forall|k: int, l: int|
        0 <= k < l < chosen.len() ==> (#[trigger] chosen[k]).save.slot < (
        #[trigger] chosen[l]).save.slot
    &&& forall|slot: u8|
        1 <= slot < limit && #[trigger] some_file_is_of_slot(files, prefixes, slot)
            ==> has_save_of(chosen, slot)
}

/// Whether one of the saves is of the slot.
pub open spec fn has_save_of(saves: Seq<CloudView>, slot: u8) -> bool {
    exists|k: int| 0 <= k < saves.len() && (#[trigger] saves[k]).save.slot == slot
}

proof fn best_saves_by_slot(files: Seq<AppFileView>, prefixes: Seq<Seq<char>>, limit: int)
    requires
        1 <= limit <= 4,
    ensures
        are_best_saves(
            files,
            prefixes,
            saves_by_slot(listed_saves(files, prefixes, files.len() as int), limit),
            limit,
        ),
    decreases limit,
{
    let saves = listed_saves(files, prefixes, files.len() as int);
    let chosen = saves_by_slot(saves, limit);
    if limit > 1 {
        best_saves_by_slot(files, prefixes, limit - 1);
        let fewer = saves_by_slot(saves, limit - 1);
        let last = (limit - 1) as u8;
        best_of_slot(files, prefixes, last);
        assert forall|k: int| 0 <= k < chosen.len() implies 1 <= (#[trigger] chosen[k]).save.slot
            < limit && exists|j: int| #[trigger]
            is_best_of_slot(files, prefixes, j, chosen[k]) by {
            if k < fewer.len() {
                assert(chosen[k] == fewer[k]);
            }
        }
        assert forall|slot: u8|
            1 <= slot < limit && #[trigger] some_file_is_of_slot(
                files,
                prefixes,
                slot,
            ) implies has_save_of(chosen, slot) by {
            if slot < limit - 1 {
                assert(has_save_of(fewer, slot));
                let k = choose|k: int| 0 <= k < fewer.len() && (#[trigger] fewer[k]).save.slot == slot;
                assert(chosen[k].save.slot == slot);
            } else {
                assert(chosen[chosen.len() - 1].save.slot == slot);
            }
        }
    }
}

/// The saves that are listed are the best of their slots: one for each slot that a file of
/// Steam's list is a save of, in ascending order, each with the path that its file's own prefix
/// index gives it.
pub proof fn best_saves_are_listed(files: Seq<AppFileView>, prefixes: Seq<Seq<char>>)
    ensures
        are_best_saves(files, prefixes, chosen_saves(files, prefixes), 4),
{
    best_saves_by_slot(files, prefixes, 4);
}

/// A list of all files gives the best save of each slot and the number of the change, 0 where
/// Steam tells none. A list of changes alone is not used.
pub proof fn whole_lists_are_used(response: Changelist)
    ensures
        response.is_only_delta == Some(true) ==> listing_of(response) == Err::<
            (u64, Seq<CloudView>),
            CloudError,
        >(CloudError::DeltaOnly),
        response.is_only_delta != Some(true) ==> (listing_of(response) matches Ok((number, saves))
            && are_best_saves(views(response.files@), views(response.path_prefixes@), saves, 4) && (
        response.current_change_number is None ==> number == 0) && (
        response.current_change_number is Some ==> response.current_change_number == Some(number))),
{
    best_saves_are_listed(views(response.files@), views(response.path_prefixes@));
}

} // verus!
