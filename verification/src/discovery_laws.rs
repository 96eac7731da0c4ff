//! Which saves are found on the device, told by its directories and by the names of its files.
use std::collections::BTreeSet;
use vstd::prelude::*;

use crate::cloud_laws::{generation, plain_names_lack_marks, save_name};
use crate::discovery::{documents_name, files_at, files_in, files_of, library_name, Entry, Sandbox};
use crate::local::{
    candidates, files_of_slot, fits_best, found, has_repentance, is_candidate, is_located,
    is_repentance_directory, is_repentance_save, joined, lies_in_repentance, name_of, path_before,
    restore_rank, restriction, save_at, DiscoveryFailure, LocateError,
};
use crate::model::{FileIdentity, IdentityView, LocalSave, LocalView, NameView};
use crate::order::{views, Ranked};
use crate::slots::{is_rep_name, slot_name, slot_of, slots_go_by_name};
use crate::stable_read::ReadError;
use crate::text::{ascii_lower, decimal, stands_at};
use crate::text_laws::{bytes_are_ordered_by_the_first_difference, differs_at_bytes};

verus! {

/// Whether an entry is a regular file of this name, which can be read as text.
pub open spec fn is_file(entry: Entry, name: NameView) -> bool {
    entry matches Entry::File { name: of } && of@ == name && name.utf8
}

/// Whether an entry is a directory of this name, other than `IsaacCloudSync`.
pub open spec fn is_directory(entry: Entry, name: NameView) -> bool {
    entry matches Entry::Directory { name: of, .. } && of@ == name && !(name.utf8 && name.text
        == "IsaacCloudSync"@)
}

/// Whether the directory that lists `entries` holds a regular file at `rest`: the last name is
/// that of the file, and those before it are those of directories, each inside the one before.
pub open spec fn holds_file(entries: Seq<Entry>, rest: Seq<NameView>) -> bool
    decreases rest.len(),
{
    if rest.len() == 0 {
        false
    } else if rest.len() == 1 {
        exists|i: int| 0 <= i < entries.len() && is_file(#[trigger] entries[i], rest[0])
    } else {
        exists|i: int|
            0 <= i < entries.len() && is_directory(#[trigger] entries[i], rest[0]) && holds_file(
                entries[i]->Directory_entries@,
                rest.drop_first(),
            )
    }
}

/// Whether a file is at `path` and then `rest`, at most `levels` names deep, inside a directory
/// at `path` that lists `entries`.
pub open spec fn is_file_below(
    path: Seq<NameView>,
    entries: Seq<Entry>,
    levels: int,
    file: Seq<NameView>,
) -> bool {
    &&& path.len() < file.len() <= path.len() + levels
    &&& file.take(path.len() as int) == path
    &&& holds_file(entries, file.skip(path.len() as int))
}

proof fn holds_more(entries: Seq<Entry>, rest: Seq<NameView>)
    requires
        entries.len() > 0,
    ensures
        holds_file(entries, rest) <==> holds_file(entries.drop_last(), rest) || holds_file(
            seq![entries.last()],
            rest,
        ),
{
    let fewer = entries.drop_last();
    let one = seq![entries.last()];
    let last = entries.len() - 1;
    if holds_file(entries, rest) {
        if rest.len() == 1 {
            let i = choose|i: int| 0 <= i < entries.len() && is_file(#[trigger] entries[i], rest[0]);
            if i < last {
                assert(is_file(fewer[i], rest[0]));
            } else {
                assert(is_file(one[0], rest[0]));
            }
        } else {
            let i = choose|i: int|
                0 <= i < entries.len() && is_directory(#[trigger] entries[i], rest[0])
                    && holds_file(entries[i]->Directory_entries@, rest.drop_first());
            if i < last {
                assert(is_directory(fewer[i], rest[0]));
            } else {
                assert(is_directory(one[0], rest[0]));
            }
        }
    }
    if holds_file(fewer, rest) {
        if rest.len() == 1 {
            let i = choose|i: int| 0 <= i < fewer.len() && is_file(#[trigger] fewer[i], rest[0]);
            assert(is_file(entries[i], rest[0]));
        } else {
            let i = choose|i: int|
                0 <= i < fewer.len() && is_directory(#[trigger] fewer[i], rest[0]) && holds_file(
                    fewer[i]->Directory_entries@,
                    rest.drop_first(),
                );
            assert(is_directory(entries[i], rest[0]));
        }
    }
    if holds_file(one, rest) {
        if rest.len() == 1 {
            let i = choose|i: int| 0 <= i < one.len() && is_file(#[trigger] one[i], rest[0]);
            assert(is_file(entries[last], rest[0]));
        } else {
            let i = choose|i: int|
                0 <= i < one.len() && is_directory(#[trigger] one[i], rest[0]) && holds_file(
                    one[i]->Directory_entries@,
                    rest.drop_first(),
                );
            assert(is_directory(entries[last], rest[0]));
        }
    }
}

proof fn listed_files_are_below(
    path: Seq<NameView>,
    entries: Seq<Entry>,
    depth: int,
    file: Seq<NameView>,
)
    requires
        0 <= depth,
    ensures
        files_in(path, entries, depth).contains(file) <==> is_file_below(
            path,
            entries,
            7 - depth,
            file,
        ),
    decreases entries,
{
    let at = path.len() as int;
    if depth > 6 {
    } else if entries.len() == 0 {
        if is_file_below(path, entries, 7 - depth, file) {
            assert(holds_file(entries, file.skip(at)));
        }
    } else {
        let fewer = files_in(path, entries.drop_last(), depth);
        let more = files_at(path, entries.last(), depth);
        let all = files_in(path, entries, depth);
        reveal_with_fuel(files_at, 2);
        reveal_with_fuel(files_in, 2);
        assert(all == fewer + more);
        assert(all.contains(file) <==> fewer.contains(file) || more.contains(file)) by {
            if fewer.contains(file) {
                let i = choose|i: int| 0 <= i < fewer.len() && fewer[i] == file;
                assert(all[i] == file);
            }
            if more.contains(file) {
                let i = choose|i: int| 0 <= i < more.len() && more[i] == file;
                assert(all[fewer.len() + i] == file);
            }
            if all.contains(file) {
                let i = choose|i: int| 0 <= i < all.len() && all[i] == file;
                if i < fewer.len() {
                    assert(fewer[i] == file);
                } else {
                    assert(more[i - fewer.len()] == file);
                }
            }
        }
        listed_files_are_below(path, entries.drop_last(), depth, file);
        let rest = file.skip(at);
        holds_more(entries, rest);
        let one = seq![entries.last()];
        assert(more.contains(file) <==> is_file_below(path, one, 7 - depth, file)) by {
            match entries.last() {
                Entry::Directory { name, entries: inner } => {
                    let deeper = path.push(name@);
                    listed_files_are_below(deeper, inner@, depth + 1, file);
                    if more.contains(file) {
                        assert(file.take(at) =~= file.take(at + 1).take(at));
                        assert(deeper.take(at) =~= path);
                        assert(file[at] == file.take(at + 1)[at]);
                        assert(rest[0] == name@);
                        assert(rest.drop_first() =~= file.skip(at + 1));
                        assert(is_directory(one[0], rest[0]));
                        assert(rest.len() > 1);
                        assert(holds_file(one, rest));
                    }
                    if is_file_below(path, one, 7 - depth, file) {
                        if rest.len() == 1 {
                            let i = choose|i: int|
                                0 <= i < one.len() && is_file(#[trigger] one[i], rest[0]);
                            assert(one[i] == entries.last());
                        } else {
                            let i = choose|i: int|
                                0 <= i < one.len() && is_directory(#[trigger] one[i], rest[0])
                                    && holds_file(
                                    one[i]->Directory_entries@,
                                    rest.drop_first(),
                                );
                            assert(one[i] == entries.last());
                            assert(rest[0] == name@);
                            assert(file.take(at + 1) =~= deeper) by {
                                assert(file.take(at + 1) =~= file.take(at).push(file[at]));
                            }
                            assert(rest.drop_first() =~= file.skip(at + 1));
                        }
                    }
                },
                Entry::File { name } => {
                    if more.contains(file) {
                        assert(file == path.push(name@));
                        assert(file.take(at) =~= path);
                        assert(rest =~= seq![name@]);
                        assert(is_file(one[0], rest[0]));
                    }
                    if is_file_below(path, one, 7 - depth, file) {
                        if rest.len() == 1 {
                            let i = choose|i: int|
                                0 <= i < one.len() && is_file(#[trigger] one[i], rest[0]);
                            assert(one[i] == entries.last());
                            assert(file =~= path.push(name@)) by {
                                assert(file =~= file.take(at) + rest);
                            }
                            assert(more[0] == file);
                        } else {
                            let i = choose|i: int|
                                0 <= i < one.len() && is_directory(#[trigger] one[i], rest[0])
                                    && holds_file(
                                    one[i]->Directory_entries@,
                                    rest.drop_first(),
                                );
                            assert(one[i] == entries.last());
                        }
                    }
                },
                Entry::Other => {
                    if is_file_below(path, one, 7 - depth, file) {
                        if rest.len() == 1 {
                            let i = choose|i: int|
                                0 <= i < one.len() && is_file(#[trigger] one[i], rest[0]);
                            assert(one[i] == entries.last());
                        } else {
                            let i = choose|i: int|
                                0 <= i < one.len() && is_directory(#[trigger] one[i], rest[0])
                                    && holds_file(
                                    one[i]->Directory_entries@,
                                    rest.drop_first(),
                                );
                            assert(one[i] == entries.last());
                        }
                    }
                },
            }
        }
    }
}

/// Whether the sandbox holds a regular file at a path: below `Documents` or `Library`, behind at
/// most six directories, none of which is the application's own.
pub open spec fn is_file_of(sandbox: Sandbox, file: Seq<NameView>) -> bool {
    ||| sandbox.documents matches Some(entries) && is_file_below(
        seq![documents_name()],
        entries@,
        7,
        file,
    )
    ||| sandbox.library matches Some(entries) && is_file_below(
        seq![library_name()],
        entries@,
        7,
        file,
    )
}

/// Exactly the regular files of the sandbox are looked at: all of them, and no link, no file with
/// an unreadable name, none of the application's own and none that lies deeper.
pub proof fn all_files_are_looked_at(sandbox: Sandbox, file: Seq<NameView>)
    ensures
        files_of(sandbox).contains(file) <==> is_file_of(sandbox, file),
        documents_name().text == "Documents"@ && library_name().text == "Library"@,
{
    let documents = match sandbox.documents {
        Some(entries) => files_in(seq![documents_name()], entries@, 0),
        None => seq![],
    };
    let library = match sandbox.library {
        Some(entries) => files_in(seq![library_name()], entries@, 0),
        None => seq![],
    };
    let all = files_of(sandbox);
    assert(all == documents + library);
    if let Some(entries) = sandbox.documents {
        listed_files_are_below(seq![documents_name()], entries@, 0, file);
    }
    if let Some(entries) = sandbox.library {
        listed_files_are_below(seq![library_name()], entries@, 0, file);
    }
    if documents.contains(file) {
        let i = choose|i: int| 0 <= i < documents.len() && documents[i] == file;
        assert(all[i] == file);
    }
    if library.contains(file) {
        let i = choose|i: int| 0 <= i < library.len() && library[i] == file;
        assert(all[documents.len() + i] == file);
    }
    if all.contains(file) {
        let i = choose|i: int| 0 <= i < all.len() && all[i] == file;
        if i < documents.len() {
            assert(documents[i] == file);
        } else {
            assert(library[i - documents.len()] == file);
        }
    }
}

/// The generation of a slot's save is told by the start of its name.
pub proof fn repentance_saves_by_name(name: Seq<char>, slot: u8)
    requires
        1 <= slot <= 3,
    ensures
        slot_of(name) == Some(slot) <==> generation(name, slot) > 0,
        generation(name, slot) > 0 ==> (is_rep_name(name) <==> generation(name, slot) >= 2),
{
    reveal_strlit("rep+");
    reveal_strlit("rep_");
    reveal_strlit("");
    reveal_strlit("persistentgamedata");
    reveal_strlit(".dat");
    reveal_strlit("rep_persistentgamedata");
    reveal_strlit("rep+persistentgamedata");
    slots_go_by_name(name, slot);
    assert(decimal(slot as nat) =~= seq![('0' as int + slot) as char]);
    assert(slot_name("rep+"@, slot) == save_name("rep+"@, slot));
    assert(slot_name("rep_"@, slot) == save_name("rep_"@, slot));
    assert(slot_name(""@, slot) == save_name(""@, slot));
    plain_names_lack_marks(slot);
    let lower = ascii_lower(name);
    if lower == save_name("rep+"@, slot) {
        assert(lower.subrange(0, 22) =~= "rep+persistentgamedata"@);
        assert(stands_at(lower, "rep+persistentgamedata"@, 0));
    } else if lower == save_name("rep_"@, slot) {
        assert(lower.subrange(0, 22) =~= "rep_persistentgamedata"@);
        assert(stands_at(lower, "rep_persistentgamedata"@, 0));
    } else if lower == save_name(""@, slot) {
        if stands_at(lower, "rep_persistentgamedata"@, 0) {
            assert(lower.subrange(0, 22)[3] == '_');
            assert(lower[3] == '_');
        }
        if stands_at(lower, "rep+persistentgamedata"@, 0) {
            assert(lower.subrange(0, 22)[3] == '+');
            assert(lower[3] == '+');
        }
    }
}

/// Whether one of the files is a Repentance or Repentance+ save of the slot.
pub open spec fn some_file_is_newer(files: Seq<Seq<NameView>>, slot: u8) -> bool {
    exists|i: int|
        0 <= i < files.len() && generation((#[trigger] files[i]).last().text, slot) >= 2
}

/// A file is a candidate exactly where its name is that of a save, of a slot that is not excluded
/// and is among those that were asked for; and where the slot has a Repentance or Repentance+
/// save, only such a save is. What the files hold makes no difference.
pub proof fn candidates_are_chosen_by_name(
    files: Seq<Seq<NameView>>,
    allowed: Option<Set<u8>>,
    excluded: Set<u8>,
    path: Seq<NameView>,
    slot: u8,
)
    requires
        1 <= slot <= 3,
    ensures
        generation(path.last().text, slot) > 0 ==> (candidates(files, allowed, excluded).contains(
            path,
        ) <==> {
            &&& files.contains(path)
            &&& !excluded.contains(slot)
            &&& allowed matches Some(slots) ==> slots.contains(slot)
            &&& some_file_is_newer(files, slot) ==> generation(path.last().text, slot) >= 2
        }),
        candidates(files, allowed, excluded).contains(path) ==> exists|of: u8|
            1 <= of <= 3 && #[trigger] generation(path.last().text, of) > 0,
{
    broadcast use vstd::seq_lib::group_filter_ensures;

    let wanted = |path: Seq<NameView>| is_candidate(files, path, allowed, excluded);
    let name = path.last().text;
    if files.filter(wanted).contains(path) {
        files.lemma_filter_contains_rev(wanted, path);
        let of = slot_of(name_of(path)).unwrap();
        crate::slots::slots_are_distinct(name, 1);
        repentance_saves_by_name(name, of);
        assert(generation(name, of) > 0);
    }
    if files.contains(path) && wanted(path) {
        let i = choose|i: int| 0 <= i < files.len() && files[i] == path;
        assert(files.filter(wanted).contains(files[i]));
    }
    repentance_saves_by_name(name, slot);
    assert(has_repentance(files, slot) == some_file_is_newer(files, slot)) by {
        if has_repentance(files, slot) {
            let i = choose|i: int|
                0 <= i < files.len() && #[trigger] is_repentance_save(
                    files[i],
                    slot,
                );
            repentance_saves_by_name(files[i].last().text, slot);
            assert(generation(files[i].last().text, slot) >= 2);
        }
        if some_file_is_newer(files, slot) {
            let i = choose|i: int|
                0 <= i < files.len() && generation((#[trigger] files[i]).last().text, slot) >= 2;
            repentance_saves_by_name(files[i].last().text, slot);
            assert(is_repentance_save(files[i], slot));
        }
    }
}

/// A save is known by the slot of its name, by its path, by the names of that with slashes in
/// between, and by its contents.
pub proof fn saves_are_known_by_their_path(
    path: Seq<NameView>,
    name: NameView,
    identity: IdentityView,
    slot: u8,
)
    requires
        1 <= slot <= 3,
    ensures
        ({
            let save = save_at(path.push(name), identity);
            &&& generation(name.text, slot) > 0 ==> save.slot == slot
            &&& save.path == path.push(name) && save.identity == identity
            &&& path.len() == 0 ==> save.relative_path == name.text
            &&& path.len() > 0 ==> save.relative_path == joined(path) + "/"@ + name.text
        }),
{
    repentance_saves_by_name(name.text, slot);
    assert(path.push(name).drop_last() =~= path);
}

/// What reading the files at `paths` comes to. Each that could be read is a save. One that could
/// not be is left out of a search for the saves as they are, and ends any other search, which then
/// tells its slot and why; one that is larger than 32 MiB ends every search.
pub proof fn searches_end_at_the_first_bad_file(
    paths: Seq<Seq<NameView>>,
    reads: Seq<Result<FileIdentity, ReadError>>,
    skip_invalid: bool,
    count: int,
)
    requires
        0 <= count <= paths.len(),
        count <= reads.len(),
    ensures
        match found(paths, reads, skip_invalid, count) {
            Ok(saves) => {
                &&& forall|i: int|
                    0 <= i < count && (#[trigger] reads[i]) is Ok ==> reads[i]->Ok_0.size
                        <= 33_554_432 && saves.contains(save_at(paths[i], reads[i]->Ok_0@))
                &&& !skip_invalid ==> saves.len() == count && forall|i: int|
                    0 <= i < count ==> (#[trigger] reads[i]) is Ok
                &&& saves.len() <= count
            },
            Err(DiscoveryFailure::Unreadable { slot, error }) => !skip_invalid && exists|i: int|
                0 <= i < count && (#[trigger] reads[i]) is Err && reads[i]->Err_0@ == error
                    && slot_of(paths[i].last().text).unwrap() == slot && forall|k: int|
                    0 <= k < i ==> (#[trigger] reads[k]) is Ok,
            Err(DiscoveryFailure::TooLarge { path }) => exists|i: int|
                0 <= i < count && (#[trigger] reads[i]) is Ok && reads[i]->Ok_0.size > 33_554_432
                    && path == paths[i],
        },
    decreases count,
{
    if count > 0 {
        searches_end_at_the_first_bad_file(paths, reads, skip_invalid, count - 1);
        if let Ok(before) = found(paths, reads, skip_invalid, count - 1) {
            if let Ok(saves) = found(paths, reads, skip_invalid, count) {
                assert forall|i: int| 0 <= i < count && (#[trigger] reads[i]) is Ok implies reads[i]->Ok_0.size
                    <= 33_554_432 && saves.contains(save_at(paths[i], reads[i]->Ok_0@)) by {
                    if i < count - 1 {
                        let save = save_at(paths[i], reads[i]->Ok_0@);
                        assert(before.contains(save));
                        let k = choose|k: int| 0 <= k < before.len() && before[k] == save;
                        assert(saves[k] == save);
                    } else {
                        assert(saves[saves.len() - 1] == save_at(paths[i], reads[i]->Ok_0@));
                    }
                }
            } else {
                assert(reads[count - 1] is Err || reads[count - 1]->Ok_0.size > 33_554_432);
            }
        }
    }
}

/// How well a file fits a backup: best one of the backup's name inside a directory called
/// Repentance, then one of that name elsewhere, then another inside such a directory, and then
/// any other. Letters of either case make no difference.
pub proof fn restores_prefer_the_name_and_then_the_directory(
    home: Seq<NameView>,
    path: Seq<NameView>,
    preferred: Seq<char>,
)
    ensures
        ({
            let named = path.last().utf8 && ascii_lower(path.last().text) == ascii_lower(preferred);
            let inside = exists|i: int|
                0 <= i < (home + path).len() && (#[trigger] (home + path)[i]).utf8 && ascii_lower(
                    (home + path)[i].text,
                ) == "repentance"@;
            &&& named && inside ==> restore_rank(home, path, preferred) == 0
            &&& named && !inside ==> restore_rank(home, path, preferred) == 1
            &&& !named && inside ==> restore_rank(home, path, preferred) == 2
            &&& !named && !inside ==> restore_rank(home, path, preferred) == 3
        }),
{
    reveal_strlit("Repentance");
    reveal_strlit("repentance");
    assert(ascii_lower("Repentance"@) =~= "repentance"@);
    let whole = home + path;
    if lies_in_repentance(whole) {
        let i = choose|i: int|
            0 <= i < whole.len() && #[trigger] is_repentance_directory(whole[i]);
        assert(whole[i].utf8);
    }
    if exists|i: int|
        0 <= i < whole.len() && (#[trigger] whole[i]).utf8 && ascii_lower(whole[i].text)
            == "repentance"@ {
        let i = choose|i: int|
            0 <= i < whole.len() && (#[trigger] whole[i]).utf8 && ascii_lower(whole[i].text)
                == "repentance"@;
        assert(is_repentance_directory(whole[i]));
    }
}

/// The file that a backup is put back to is the only one that fits as well as it does.
pub proof fn restores_need_one_best_file(
    home: Seq<NameView>,
    paths: Seq<Seq<NameView>>,
    preferred: Seq<char>,
    i: int,
)
    ensures
        fits_best(home, paths, preferred, i) <==> 0 <= i < paths.len() && forall|j: int|
            0 <= j < paths.len() && j != i ==> restore_rank(home, paths[i], preferred)
                < restore_rank(home, #[trigger] paths[j], preferred),
{
}

/// A backup is put back to a file of the sandbox whose name is that of its slot, that fits better
/// than every other such file. It is put back nowhere where its own name is not that of its slot,
/// where the slot is excluded, where there is no such file, and where the best is not alone.
pub proof fn backups_are_put_back_to_the_best_file(
    sandbox: Sandbox,
    excluded: Set<u8>,
    slot: u8,
    preferred: Seq<char>,
    result: Result<Seq<NameView>, LocateError>,
    other: Seq<NameView>,
)
    requires
        is_located(sandbox, excluded, slot, preferred, result),
        1 <= slot <= 3,
    ensures
        result matches Ok(path) ==> {
            &&& generation(preferred, slot) > 0 && !excluded.contains(slot)
            &&& is_file_of(sandbox, path) && generation(path.last().text, slot) > 0
            &&& is_file_of(sandbox, other) && generation(other.last().text, slot) > 0 && other
                != path ==> restore_rank(views(sandbox.home@), path, preferred) < restore_rank(
                views(sandbox.home@),
                other,
                preferred,
            )
        },
        result == Err::<Seq<NameView>, LocateError>(LocateError::FilenameMismatch) <==> generation(
            preferred,
            slot,
        ) == 0,
        result == Err::<Seq<NameView>, LocateError>(LocateError::Excluded(slot)) <==> generation(
            preferred,
            slot,
        ) > 0 && excluded.contains(slot),
        result == Err::<Seq<NameView>, LocateError>(LocateError::NotFound) ==> !(is_file_of(
            sandbox,
            other,
        ) && generation(other.last().text, slot) > 0),
{
    broadcast use vstd::seq_lib::group_filter_ensures;

    repentance_saves_by_name(preferred, slot);
    repentance_saves_by_name(other.last().text, slot);
    all_files_are_looked_at(sandbox, other);
    let files = files_of(sandbox);
    let of_slot = |path: Seq<NameView>| slot_of(name_of(path)) == Some(slot);
    let paths = files_of_slot(files, slot);
    if files.contains(other) && of_slot(other) {
        let k = choose|k: int| 0 <= k < files.len() && files[k] == other;
        assert(files.filter(of_slot).contains(files[k]));
        assert(paths.contains(other));
    }
    if let Ok(path) = result {
        let home = views(sandbox.home@);
        let i = choose|i: int| #[trigger] fits_best(home, paths, preferred, i) && path == paths[i];
        assert(paths.contains(paths[i]));
        files.lemma_filter_contains_rev(of_slot, path);
        all_files_are_looked_at(sandbox, path);
        repentance_saves_by_name(path.last().text, slot);
        if paths.contains(other) && other != path {
            let j = choose|j: int| 0 <= j < paths.len() && paths[j] == other;
            assert(restore_rank(home, paths[i], preferred) < restore_rank(
                home,
                paths[j],
                preferred,
            ));
        }
    }
}

/// Whether two paths agree up to a component in which they differ, by its bytes, and in which the
/// first comes before the second, or which only the second has.
pub open spec fn paths_differ_at(a: Seq<NameView>, b: Seq<NameView>, at: int) -> bool {
    &&& 0 <= at <= a.len() && at < b.len()
    &&& forall|k: int| 0 <= k < at ==> (#[trigger] a[k]).bytes == b[k].bytes
    &&& at < a.len() ==> a[at].bytes != b[at].bytes && exists|byte: int| #[trigger]
        differs_at_bytes(a[at].bytes, b[at].bytes, byte)
}

/// Paths are ordered by the bytes of the first component in which they differ.
pub proof fn paths_are_ordered_by_component(a: Seq<NameView>, b: Seq<NameView>)
    ensures
        path_before(a, b) <==> exists|at: int| #[trigger] paths_differ_at(a, b, at),
    decreases a.len(),
{
    if a.len() > 0 && b.len() > 0 {
        bytes_are_ordered_by_the_first_difference(a[0].bytes, b[0].bytes);
    }
    if a.len() > 0 && b.len() > 0 && a[0].bytes == b[0].bytes {
        let (x, y) = (a.drop_first(), b.drop_first());
        paths_are_ordered_by_component(x, y);
        if path_before(x, y) {
            let at = choose|at: int| #[trigger] paths_differ_at(x, y, at);
            assert forall|k: int| 0 <= k < at + 1 implies (#[trigger] a[k]).bytes == b[k].bytes by {
                if k > 0 {
                    assert(x[k - 1].bytes == y[k - 1].bytes);
                }
            }
            assert(paths_differ_at(a, b, at + 1));
        }
        if exists|at: int| #[trigger] paths_differ_at(a, b, at) {
            let at = choose|at: int| #[trigger] paths_differ_at(a, b, at);
            assert(at > 0);
            if at < a.len() {
                let byte = choose|byte: int| #[trigger]
                    differs_at_bytes(a[at].bytes, b[at].bytes, byte);
                assert(x[at - 1] == a[at] && y[at - 1] == b[at]);
                assert(differs_at_bytes(x[at - 1].bytes, y[at - 1].bytes, byte));
            }
            assert forall|k: int| 0 <= k < at - 1 implies (#[trigger] x[k]).bytes == y[k].bytes by {
                assert(a[k + 1].bytes == b[k + 1].bytes);
            }
            assert(paths_differ_at(x, y, at - 1));
        }
    } else {
        if path_before(a, b) {
            assert(paths_differ_at(a, b, 0));
        }
        if exists|at: int| #[trigger] paths_differ_at(a, b, at) {
            let at = choose|at: int| #[trigger] paths_differ_at(a, b, at);
            if at > 0 {
                assert(a[0].bytes == b[0].bytes);
            }
        }
    }
}

/// The saves that a search finds come by their paths, and a restriction to slots is what was asked
/// for.
pub proof fn searches_are_ordered_and_restricted(a: LocalView, b: LocalView, slots: BTreeSet<u8>)
    ensures
        LocalSave::precedes(a, b) <==> exists|at: int| #[trigger]
            paths_differ_at(a.path, b.path, at),
        restriction(None) is None,
        restriction(Some(slots)) == Some(slots@),
{
    paths_are_ordered_by_component(a.path, b.path);
}

} // verus!
