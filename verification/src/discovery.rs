//! Finding the saves of the game in the application's sandbox.
use vstd::prelude::*;

use crate::model::{EntryName, NameView, SandboxPath};
use crate::order::views;
use crate::text::same_text;

verus! {

/// How many directories below `Documents` or `Library` a save may lie.
pub const MAX_DISCOVERY_DEPTH: usize = 6;

/// A directory entry.
pub enum Entry {
    /// A directory with what could be listed of it.
    Directory { name: EntryName, entries: Vec<Entry> },
    /// A regular file.
    File { name: EntryName },
    /// A symbolic link or anything else that is not followed.
    Other,
}

/// The application's sandbox.
pub struct Sandbox {
    /// The absolute path of the sandbox.
    pub home: Vec<EntryName>,
    /// What `Documents` holds, where it is a directory.
    pub documents: Option<Vec<Entry>>,
    /// What `Library` holds, where it is a directory.
    pub library: Option<Vec<Entry>>,
}

/// Whether this is the directory of the application's own data, which holds backups.
pub open spec fn is_own_data(name: NameView) -> bool {
    name.utf8 && name.text == "IsaacCloudSync"@
}

/// The files with readable names below a directory at `path` that holds `entries` and lies
/// `depth` directories deep, in the order of the listing.
pub open spec fn files_in(path: Seq<NameView>, entries: Seq<Entry>, depth: int) -> Seq<
    Seq<NameView>,
>
    decreases entries,
{
    if depth > MAX_DISCOVERY_DEPTH || entries.len() == 0 {
        seq![]
    } else {
        files_in(path, entries.drop_last(), depth) + files_at(path, entries.last(), depth)
    }
}

/// The files with readable names that an entry of the directory at `path` is or holds.
pub open spec fn files_at(path: Seq<NameView>, entry: Entry, depth: int) -> Seq<Seq<NameView>>
    decreases entry,
{
    match entry {
        Entry::Directory { name, entries } => if is_own_data(name@) {
            seq![]
        } else {
            files_in(path.push(name@), entries@, depth + 1)
        },
        Entry::File { name } => if name.utf8 {
            seq![path.push(name@)]
        } else {
            seq![]
        },
        Entry::Other => seq![],
    }
}

/// `Documents` in bytes.
pub const DOCUMENTS: [u8; 9] = [0x44, 0x6f, 0x63, 0x75, 0x6d, 0x65, 0x6e, 0x74, 0x73];

/// `Library` in bytes.
pub const LIBRARY: [u8; 7] = [0x4c, 0x69, 0x62, 0x72, 0x61, 0x72, 0x79];

/// The name of the directory of the user's documents.
pub open spec fn documents_name() -> NameView {
    NameView { bytes: DOCUMENTS@, text: "Documents"@, utf8: true }
}

/// The name of the directory of application data.
pub open spec fn library_name() -> NameView {
    NameView { bytes: LIBRARY@, text: "Library"@, utf8: true }
}

/// The files with readable names below a directory of the sandbox, where it is there.
pub open spec fn files_below(root: NameView, entries: Option<Vec<Entry>>) -> Seq<Seq<NameView>> {
    match entries {
        Some(entries) => files_in(seq![root], entries@, 0),
        None => seq![],
    }
}

/// The files of the sandbox among which saves are looked for.
pub open spec fn files_of(sandbox: Sandbox) -> Seq<Seq<NameView>> {
    files_below(documents_name(), sandbox.documents) + files_below(
        library_name(),
        sandbox.library,
    )
}

/// Every file that is looked at lies below `path`, at most as deep as allowed, and in no
/// directory of the application's own data.
pub proof fn files_are_live(path: Seq<NameView>, entries: Seq<Entry>, depth: int, i: int)
    requires
        0 <= depth,
        0 <= i < files_in(path, entries, depth).len(),
    ensures
        ({
            let file = files_in(path, entries, depth)[i];
            &&& path.len() < file.len() <= path.len() + 1 + MAX_DISCOVERY_DEPTH - depth
            &&& file.take(path.len() as int) == path
            &&& forall|k: int| path.len() <= k < file.len() - 1 ==> !is_own_data(#[trigger] file[k])
            &&& file.last().utf8
        }),
    decreases entries,
{
    let rest = files_in(path, entries.drop_last(), depth);
    let file = files_in(path, entries, depth)[i];
    reveal_with_fuel(files_at, 2);
    let more = files_at(path, entries.last(), depth);
    assert(files_in(path, entries, depth) == rest + more);
    if i < rest.len() {
        files_are_live(path, entries.drop_last(), depth, i);
    } else {
        match entries.last() {
            Entry::Directory { name, entries: inner } => {
                let deeper = path.push(name@);
                files_are_live(deeper, inner@, depth + 1, i - rest.len());
                assert(file.take(path.len() as int) =~= file.take(deeper.len() as int).take(
                    path.len() as int,
                ));
                assert(deeper.take(path.len() as int) =~= path);
                assert(file[path.len() as int] == file.take(deeper.len() as int)[path.len() as int]);
            },
            Entry::File { name } => {
                assert(file.take(path.len() as int) =~= path);
            },
            Entry::Other => {},
        }
    }
}

/// Whether a path is that of a live file by its place: below `Documents` or `Library`, at most as
/// deep as allowed, in no directory of the application's own data, and with a readable name.
pub open spec fn is_live_path(path: Seq<NameView>) -> bool {
    &&& 2 <= path.len() <= 2 + MAX_DISCOVERY_DEPTH
    &&& path[0] == documents_name() || path[0] == library_name()
    &&& forall|k: int| 1 <= k < path.len() - 1 ==> !is_own_data(#[trigger] path[k])
    &&& path.last().utf8
}

/// Every file of the sandbox that is looked at is live.
pub proof fn sandbox_files_are_live(sandbox: Sandbox, path: Seq<NameView>)
    requires
        files_of(sandbox).contains(path),
    ensures
        is_live_path(path),
{
    let documents = files_below(documents_name(), sandbox.documents);
    let at = choose|at: int| 0 <= at < files_of(sandbox).len() && files_of(sandbox)[at] == path;
    if at < documents.len() {
        files_are_live(seq![documents_name()], sandbox.documents->Some_0@, 0, at);
        assert(path[0] == path.take(1)[0]);
    } else {
        files_are_live(
            seq![library_name()],
            sandbox.library->Some_0@,
            0,
            at - documents.len(),
        );
        assert(path[0] == path.take(1)[0]);
    }
}

/// The bytes of an entry's name, where it is one that is looked at.
pub open spec fn entry_bytes(entry: Entry) -> Option<Seq<u8>> {
    match entry {
        Entry::Directory { name, .. } => Some(name@.bytes),
        Entry::File { name } => Some(name@.bytes),
        Entry::Other => None,
    }
}

/// Whether a directory lists every name once, and so does every directory in it.
pub open spec fn lists_once(entries: Seq<Entry>) -> bool
    decreases entries,
{
    entries.len() == 0 || (lists_once(entries.drop_last()) && holds_once(entries.last()) && forall|
        i: int,
    |
        0 <= i < entries.len() - 1 && entry_bytes(#[trigger] entries[i]) is Some ==> entry_bytes(
            entries[i],
        ) != entry_bytes(entries.last()))
}

/// Whether an entry that is a directory lists every name once.
pub open spec fn holds_once(entry: Entry) -> bool
    decreases entry,
{
    match entry {
        Entry::Directory { entries, .. } => lists_once(entries@),
        _ => true,
    }
}

impl Sandbox {
    /// Whether every directory lists every name once, as directories do.
    pub open spec fn wf(&self) -> bool {
        &&& self.documents matches Some(entries) ==> lists_once(entries@)
        &&& self.library matches Some(entries) ==> lists_once(entries@)
    }
}

/// The bytes of the components of a path.
pub open spec fn byte_path(path: Seq<NameView>) -> Seq<Seq<u8>> {
    Seq::new(path.len(), |i: int| path[i].bytes)
}

/// Whether no two paths are of the same bytes.
pub open spec fn no_path_twice(paths: Seq<Seq<NameView>>) -> bool {
    forall|i: int, j: int|
        0 <= i < j < paths.len() ==> byte_path(#[trigger] paths[i]) != byte_path(
            #[trigger] paths[j],
        )
}

proof fn file_of_entry(path: Seq<NameView>, entries: Seq<Entry>, depth: int, i: int)
    requires
        0 <= depth,
        0 <= i < files_in(path, entries, depth).len(),
    ensures
        ({
            let file = files_in(path, entries, depth)[i];
            &&& path.len() < file.len()
            &&& exists|k: int|
                0 <= k < entries.len() && entry_bytes(#[trigger] entries[k]) == Some(
                    file[path.len() as int].bytes,
                )
        }),
    decreases entries,
{
    files_are_live(path, entries, depth, i);
    let file = files_in(path, entries, depth)[i];
    let rest = files_in(path, entries.drop_last(), depth);
    reveal_with_fuel(files_at, 2);
    let more = files_at(path, entries.last(), depth);
    assert(files_in(path, entries, depth) == rest + more);
    if i < rest.len() {
        file_of_entry(path, entries.drop_last(), depth, i);
        let k = choose|k: int|
            0 <= k < entries.drop_last().len() && entry_bytes(
                #[trigger] entries.drop_last()[k],
            ) == Some(file[path.len() as int].bytes);
        assert(entries[k] == entries.drop_last()[k]);
    } else {
        entry_of_last(path, entries, depth, i);
        assert(entries[entries.len() - 1] == entries.last());
    }
}

proof fn entry_of_last(path: Seq<NameView>, entries: Seq<Entry>, depth: int, i: int)
    requires
        0 <= depth,
        entries.len() > 0,
        files_in(path, entries.drop_last(), depth).len() <= i < files_in(path, entries, depth).len(),
    ensures
        entry_bytes(entries.last()) == Some(
            files_in(path, entries, depth)[i][path.len() as int].bytes,
        ),
{
    let file = files_in(path, entries, depth)[i];
    let rest = files_in(path, entries.drop_last(), depth);
    reveal_with_fuel(files_at, 2);
    let more = files_at(path, entries.last(), depth);
    assert(files_in(path, entries, depth) == rest + more);
    assert(file == more[i - rest.len()]);
    match entries.last() {
        Entry::Directory { name, entries: inner } => {
            let deeper = path.push(name@);
            files_are_live(deeper, inner@, depth + 1, i - rest.len());
            assert(file[path.len() as int] == file.take(deeper.len() as int)[path.len() as int]);
        },
        Entry::File { name } => {},
        Entry::Other => {},
    }
}

proof fn files_in_differ(path: Seq<NameView>, entries: Seq<Entry>, depth: int)
    requires
        0 <= depth,
        lists_once(entries),
    ensures
        no_path_twice(files_in(path, entries, depth)),
    decreases entries,
{
    let files = files_in(path, entries, depth);
    if depth <= MAX_DISCOVERY_DEPTH && entries.len() > 0 {
        let rest = files_in(path, entries.drop_last(), depth);
        reveal_with_fuel(files_at, 2);
        reveal_with_fuel(lists_once, 2);
        reveal_with_fuel(holds_once, 2);
        assert(holds_once(entries.last()));
        let more = files_at(path, entries.last(), depth);
        assert(files == rest + more);
        files_in_differ(path, entries.drop_last(), depth);
        match entries.last() {
            Entry::Directory { name, entries: inner } => {
                files_in_differ(path.push(name@), inner@, depth + 1);
            },
            _ => {},
        }
        assert(no_path_twice(more));
        assert forall|i: int, j: int| 0 <= i < j < files.len() implies byte_path(
            #[trigger] files[i],
        ) != byte_path(#[trigger] files[j]) by {
            if j < rest.len() {
                assert(files[i] == rest[i] && files[j] == rest[j]);
            } else if i >= rest.len() {
                assert(files[i] == more[i - rest.len()] && files[j] == more[j - rest.len()]);
            } else {
                file_of_entry(path, entries.drop_last(), depth, i);
                files_are_live(path, entries, depth, i);
                files_are_live(path, entries, depth, j);
                entry_of_last(path, entries, depth, j);
                assert(files[i] == rest[i]);
                let at = path.len() as int;
                let k = choose|k: int|
                    0 <= k < entries.drop_last().len() && entry_bytes(
                        #[trigger] entries.drop_last()[k],
                    ) == Some(rest[i][at].bytes);
                assert(entries[k] == entries.drop_last()[k]);
                assert(byte_path(files[i])[at] == files[i][at].bytes);
                assert(byte_path(files[j])[at] == files[j][at].bytes);
            }
        }
    }
}

/// No file of the sandbox is found twice.
pub proof fn files_are_found_once(sandbox: Sandbox)
    requires
        sandbox.wf(),
    ensures
        no_path_twice(files_of(sandbox)),
{
    let documents = files_below(documents_name(), sandbox.documents);
    let library = files_below(library_name(), sandbox.library);
    if let Some(entries) = sandbox.documents {
        files_in_differ(seq![documents_name()], entries@, 0);
    }
    if let Some(entries) = sandbox.library {
        files_in_differ(seq![library_name()], entries@, 0);
    }
    let files = files_of(sandbox);
    assert forall|i: int, j: int| 0 <= i < j < files.len() implies byte_path(#[trigger] files[i])
        != byte_path(#[trigger] files[j]) by {
        if j < documents.len() {
            assert(files[i] == documents[i] && files[j] == documents[j]);
        } else if i >= documents.len() {
            assert(files[i] == library[i - documents.len()]);
            assert(files[j] == library[j - documents.len()]);
        } else {
            files_are_live(seq![documents_name()], sandbox.documents.unwrap()@, 0, i);
            files_are_live(
                seq![library_name()],
                sandbox.library.unwrap()@,
                0,
                j - documents.len(),
            );
            assert(files[i].take(1)[0] == documents_name());
            assert(files[j].take(1)[0] == library_name());
            assert(DOCUMENTS@[0] != LIBRARY@[0]);
            assert(byte_path(files[i])[0] == DOCUMENTS@);
            assert(byte_path(files[j])[0] == LIBRARY@);
        }
    }
}

/// Whether a name is that of the application's own data.
fn is_own_directory(name: &EntryName) -> (own: bool)
    ensures
        own == is_own_data(name@),
{
    name.utf8 && same_text(name.text.as_str(), "IsaacCloudSync")
}

/// Copies `path` and puts `name` behind it.
fn extended(path: &Vec<EntryName>, name: &EntryName) -> (longer: Vec<EntryName>)
    ensures
        views(longer@) == views(path@).push(name@),
{
    let mut longer: Vec<EntryName> = Vec::new();
    let mut i: usize = 0;
    while i < path.len()
        invariant
            i <= path@.len(),
            longer@.len() == i,
            forall|j: int| 0 <= j < i ==> #[trigger] longer@[j]@ == path@[j]@,
        decreases path@.len() - i,
    {
        longer.push(path[i].clone());
        i += 1;
    }
    longer.push(name.clone());
    assert(views(longer@) =~= views(path@).push(name@));
    longer
}

/// Adds the files with readable names below a directory to `out`.
fn walk(path: &Vec<EntryName>, entries: &Vec<Entry>, depth: usize, out: &mut Vec<SandboxPath>)
    requires
        depth <= MAX_DISCOVERY_DEPTH + 1,
    ensures
        views(final(out)@) == views(old(out)@) + files_in(views(path@), entries@, depth as int),
    decreases MAX_DISCOVERY_DEPTH + 1 - depth,
{
    if depth > MAX_DISCOVERY_DEPTH {
        assert(views(out@) =~= views(out@) + Seq::<Seq<NameView>>::empty());
        return;
    }
    let ghost before = views(out@);
    let ghost here = views(path@);
    let mut i: usize = 0;
    assert(entries@.take(0) =~= Seq::<Entry>::empty());
    assert(before + Seq::<Seq<NameView>>::empty() =~= before);
    while i < entries.len()
        invariant
            i <= entries@.len(),
            depth <= MAX_DISCOVERY_DEPTH,
            here == views(path@),
            views(out@) == before + files_in(here, entries@.take(i as int), depth as int),
        decreases entries@.len() - i,
    {
        let ghost known = views(out@);
        proof {
            let upto = entries@.take(i + 1);
            assert(upto.drop_last() =~= entries@.take(i as int));
            assert(upto.last() == entries@[i as int]);
        }
        match &entries[i] {
            Entry::Directory { name, entries: inner } => {
                if !is_own_directory(name) {
                    let deeper: Vec<EntryName> = extended(path, name);
                    walk(&deeper, inner, depth + 1, out);
                }
            },
            Entry::File { name } => {
                if name.utf8 {
                    let file: SandboxPath = SandboxPath { components: extended(path, name) };
                    let ghost view = file@;
                    let ghost held = out@;
                    out.push(file);
                    assert(views(out@) =~= views(held).push(view));
                    assert(known.push(view) =~= known + seq![view]);
                }
            },
            Entry::Other => {},
        }
        proof {
            assert(views(out@) =~= known + files_at(here, entries@[i as int], depth as int));
            assert(views(out@) =~= before + files_in(here, entries@.take(i + 1), depth as int));
        }
        i += 1;
    }
    assert(entries@.take(i as int) =~= entries@);
}

/// Adds the files with readable names below a directory of the sandbox to `out`.
fn walk_root(root: EntryName, entries: &Option<Vec<Entry>>, out: &mut Vec<SandboxPath>)
    ensures
        views(final(out)@) == views(old(out)@) + files_below(root@, *entries),
{
    let ghost name = root@;
    match entries {
        Some(entries) => {
            let mut path: Vec<EntryName> = Vec::new();
            path.push(root);
            assert(views(path@) =~= seq![name]);
            walk(&path, entries, 0, out);
        },
        None => {
            assert(views(out@) =~= views(out@) + Seq::<Seq<NameView>>::empty());
        },
    }
}

/// A directory name that is ASCII text.
fn plain_name(bytes: &[u8], text: &str) -> (name: EntryName)
    ensures
        name@ == (NameView { bytes: bytes@, text: text@, utf8: true }),
{
    EntryName { bytes: crate::bytes::to_vec(bytes), text: text.to_owned(), utf8: true }
}

/// The files of the sandbox among which saves are looked for.
pub fn sandbox_files(sandbox: &Sandbox) -> (files: Vec<SandboxPath>)
    ensures
        views(files@) == files_of(*sandbox),
{
    let mut files: Vec<SandboxPath> = Vec::new();
    assert(views(files@) =~= Seq::<Seq<NameView>>::empty());
    walk_root(plain_name(&DOCUMENTS, "Documents"), &sandbox.documents, &mut files);
    assert(views(files@) =~= files_below(documents_name(), sandbox.documents));
    walk_root(plain_name(&LIBRARY, "Library"), &sandbox.library, &mut files);
    files
}

} // verus!
