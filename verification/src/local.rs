//! The saves on the device: which of the files found are synchronized, and which file a
//! restored backup replaces.
use std::collections::BTreeSet;
use vstd::prelude::*;

use crate::digest::identity_of;
use crate::discovery::{
    byte_path, files_are_found_once, files_of, is_live_path, no_path_twice, sandbox_files,
    sandbox_files_are_live, Sandbox,
};
use crate::isaac_format::canonical_form;
use crate::isaac_format_laws::canonical_form_is_stable;
use crate::lz4::MAX_SAVE_SIZE;
use crate::model::{
    EntryName, FileIdentity, IdentityView, LocalSave, LocalView, NameView, SandboxPath,
};
use crate::order::{
    all_differ, ascends, bytes_before, bytes_order, different_items_ascend, is_bytes_before,
    sorted_form, sorting_filters, sorting_orders, stable_sort, views, Ranked,
};
use crate::slots::{is_rep_name, is_repentance_name, slot_for_filename, slot_of};
use crate::stable_read::{read_identity, FileStat, ReadError, ReadFailure};
use crate::text::{ascii_lower, decimal, eq_ignore_ascii_case, to_decimal};

verus! {

/// The name of the file at `path`.
pub open spec fn name_of(path: Seq<NameView>) -> Seq<char> {
    path.last().text
}

/// The slots that a caller restricts the search to, if it does.
pub open spec fn restriction(allowed: Option<BTreeSet<u8>>) -> Option<Set<u8>> {
    match allowed {
        Some(slots) => Some(slots@),
        None => None,
    }
}

/// Whether a slot may be synchronized: it is not excluded, and it is among those asked for.
pub open spec fn permitted(slot: u8, allowed: Option<Set<u8>>, excluded: Set<u8>) -> bool {
    !excluded.contains(slot) && match allowed {
        Some(slots) => slots.contains(slot),
        None => true,
    }
}

/// Whether the file at `path` is the Repentance or Repentance+ save of `slot`.
pub open spec fn is_repentance_save(path: Seq<NameView>, slot: u8) -> bool {
    slot_of(name_of(path)) == Some(slot) && is_rep_name(name_of(path))
}

/// Whether there is a Repentance or Repentance+ save of `slot`.
pub open spec fn has_repentance(files: Seq<Seq<NameView>>, slot: u8) -> bool {
    exists|i: int| 0 <= i < files.len() && #[trigger] is_repentance_save(files[i], slot)
}

/// Whether the file at `path` is a save to synchronize: by its name it belongs to a permitted
/// slot, and no older generation stands beside a Repentance save.
pub open spec fn is_candidate(
    files: Seq<Seq<NameView>>,
    path: Seq<NameView>,
    allowed: Option<Set<u8>>,
    excluded: Set<u8>,
) -> bool {
    match slot_of(name_of(path)) {
        Some(slot) => permitted(slot, allowed, excluded) && (has_repentance(files, slot)
            ==> is_rep_name(name_of(path))),
        None => false,
    }
}

/// The files to synchronize, in the order in which they were found.
pub open spec fn candidates(
    files: Seq<Seq<NameView>>,
    allowed: Option<Set<u8>>,
    excluded: Set<u8>,
) -> Seq<Seq<NameView>> {
    files.filter(|path: Seq<NameView>| is_candidate(files, path, allowed, excluded))
}

/// The text of a path, its components behind each other.
pub open spec fn joined(path: Seq<NameView>) -> Seq<char>
    decreases path.len(),
{
    if path.len() == 0 {
        seq![]
    } else if path.len() == 1 {
        path[0].text
    } else {
        joined(path.drop_last()) + "/"@ + path.last().text
    }
}

/// The save at `path` with the given identity.
pub open spec fn save_at(path: Seq<NameView>, identity: IdentityView) -> LocalView {
    LocalView {
        slot: slot_of(name_of(path)).unwrap(),
        path,
        relative_path: joined(path),
        identity,
    }
}

/// Why the saves could not be found.
#[derive(Debug)]
pub enum DiscoveryError {
    /// The save of a slot could not be read.
    Unreadable { slot: u8, error: ReadError },
    /// A save is larger than any save.
    TooLarge { path: SandboxPath },
}

/// What a `DiscoveryError` says.
pub enum DiscoveryFailure {
    Unreadable { slot: u8, error: ReadFailure },
    TooLarge { path: Seq<NameView> },
}

impl View for DiscoveryError {
    type V = DiscoveryFailure;

    open spec fn view(&self) -> DiscoveryFailure {
        match *self {
            DiscoveryError::Unreadable { slot, error } => DiscoveryFailure::Unreadable {
                slot,
                error: error@,
            },
            DiscoveryError::TooLarge { path } => DiscoveryFailure::TooLarge { path: path@ },
        }
    }
}

impl DiscoveryFailure {
    /// The message for the user, where `home` is the path of the sandbox.
    pub open spec fn text(self, home: Seq<NameView>) -> Seq<char> {
        match self {
            DiscoveryFailure::Unreadable { slot, error } => "validate local save slot "@ + decimal(
                slot as nat,
            ) + ": "@ + error.text(),
            DiscoveryFailure::TooLarge { path } => "candidate save is unexpectedly large: "@
                + "/"@ + joined(home + path),
        }
    }
}

/// The saves among the first `count` files at `paths`, where `reads` says what reading them
/// gave. A file that could not be read is passed over or ends the search.
pub open spec fn found(
    paths: Seq<Seq<NameView>>,
    reads: Seq<Result<FileIdentity, ReadError>>,
    skip_invalid: bool,
    count: int,
) -> Result<Seq<LocalView>, DiscoveryFailure>
    decreases count,
{
    if count <= 0 {
        Ok(seq![])
    } else {
        match found(paths, reads, skip_invalid, count - 1) {
            Err(failure) => Err(failure),
            Ok(saves) => match reads[count - 1] {
                Ok(identity) => if identity.size > MAX_SAVE_SIZE {
                    Err(DiscoveryFailure::TooLarge { path: paths[count - 1] })
                } else {
                    Ok(saves.push(save_at(paths[count - 1], identity@)))
                },
                Err(error) => if skip_invalid {
                    Ok(saves)
                } else {
                    Err(
                        DiscoveryFailure::Unreadable {
                            slot: slot_of(name_of(paths[count - 1])).unwrap(),
                            error: error@,
                        },
                    )
                },
            },
        }
    }
}

/// Whether `reads` covers `count` files: all of them, or those up to the one that ends the
/// search.
pub open spec fn reads_cover(
    reads: Seq<Result<FileIdentity, ReadError>>,
    skip_invalid: bool,
    count: nat,
) -> bool {
    reads.len() == count || (!skip_invalid && 0 < reads.len() < count && reads.last() is Err)
}

/// Whether the path `a` comes before the path `b`, by the bytes of their components.
pub open spec fn path_before(a: Seq<NameView>, b: Seq<NameView>) -> bool
    decreases a.len(),
{
    if b.len() == 0 {
        false
    } else if a.len() == 0 {
        true
    } else if a[0].bytes != b[0].bytes {
        bytes_before(a[0].bytes, b[0].bytes)
    } else {
        path_before(a.drop_first(), b.drop_first())
    }
}

proof fn path_order(a: Seq<NameView>, b: Seq<NameView>, c: Seq<NameView>)
    ensures
        !path_before(a, a),
        path_before(a, b) && path_before(b, c) ==> path_before(a, c),
        !path_before(b, a) && !path_before(c, b) ==> !path_before(c, a),
    decreases a.len(),
{
    if a.len() > 0 {
        path_order(a.drop_first(), a.drop_first(), Seq::empty());
    }
    if a.len() > 0 && b.len() > 0 && c.len() > 0 {
        let (x, y, z) = (a[0].bytes, b[0].bytes, c[0].bytes);
        path_order(a.drop_first(), b.drop_first(), c.drop_first());
        bytes_order(x, y, z);
        bytes_order(z, y, x);
        bytes_order(x, z, y);
        bytes_order(y, x, z);
        bytes_order(z, x, z);
        bytes_order(x, y, x);
        bytes_order(y, z, y);
    }
}

/// Whether the path `a` comes before the path `b`.
fn is_path_before(a: &Vec<EntryName>, b: &Vec<EntryName>) -> (before: bool)
    ensures
        before == path_before(views(a@), views(b@)),
{
    let ghost (x, y) = (views(a@), views(b@));
    let mut i: usize = 0;
    assert(x.skip(0) =~= x);
    assert(y.skip(0) =~= y);
    loop
        invariant
            i <= a@.len(),
            i <= b@.len(),
            x == views(a@),
            y == views(b@),
            path_before(x, y) == path_before(x.skip(i as int), y.skip(i as int)),
        decreases a@.len() - i,
    {
        if i >= b.len() {
            return false;
        }
        if i >= a.len() {
            return true;
        }
        proof {
            assert(x.skip(i as int)[0] == x[i as int]);
            assert(y.skip(i as int)[0] == y[i as int]);
            bytes_order(x[i as int].bytes, y[i as int].bytes, x[i as int].bytes);
        }
        if is_bytes_before(&a[i].bytes, &b[i].bytes) {
            return true;
        }
        if is_bytes_before(&b[i].bytes, &a[i].bytes) {
            proof {
                bytes_order(y[i as int].bytes, y[i as int].bytes, y[i as int].bytes);
            }
            return false;
        }
        assert(x.skip(i as int).drop_first() =~= x.skip(i + 1));
        assert(y.skip(i as int).drop_first() =~= y.skip(i + 1));
        i += 1;
    }
}

impl Ranked for LocalSave {
    open spec fn precedes(a: LocalView, b: LocalView) -> bool {
        path_before(a.path, b.path)
    }

    fn is_before(&self, other: &Self) -> (before: bool) {
        is_path_before(&self.path.components, &other.path.components)
    }

    proof fn precedes_orders(a: LocalView, b: LocalView, c: LocalView) {
        path_order(a.path, b.path, c.path);
    }
}

/// The text of a path.
fn joined_text(path: &Vec<EntryName>) -> (text: String)
    ensures
        text@ == joined(views(path@)),
{
    let ghost all = views(path@);
    let mut text: String = "".to_owned();
    proof {
        reveal_strlit("");
        assert(text@ =~= joined(all.take(0)));
    }
    let mut i: usize = 0;
    while i < path.len()
        invariant
            i <= path@.len(),
            all == views(path@),
            text@ == joined(all.take(i as int)),
        decreases path@.len() - i,
    {
        proof {
            let upto = all.take(i + 1);
            assert(upto.drop_last() =~= all.take(i as int));
            assert(upto.last() == path@[i as int]@);
        }
        if i > 0 {
            text.append("/");
            text.append(path[i].text.as_str());
        } else {
            assert(text@ + path@[0]@.text =~= path@[0]@.text);
            text.append(path[i].text.as_str());
        }
        i += 1;
    }
    assert(all.take(i as int) =~= all);
    text
}

impl DiscoveryError {
    /// The message for the user, where `home` is the path of the sandbox.
    pub fn message(&self, home: &Vec<EntryName>) -> (message: String)
        ensures
            message@ == self@.text(views(home@)),
    {
        match self {
            DiscoveryError::Unreadable { slot, error } => {
                let mut message: String = "validate local save slot ".to_owned();
                message.append(to_decimal(*slot as u64).as_str());
                message.append(": ");
                message.append(error.message().as_str());
                message
            },
            DiscoveryError::TooLarge { path } => {
                let mut message: String = "candidate save is unexpectedly large: ".to_owned();
                message.append("/");
                let mut whole: Vec<EntryName> = Vec::new();
                let mut i: usize = 0;
                while i < home.len()
                    invariant
                        i <= home@.len(),
                        views(whole@) == views(home@).take(i as int),
                    decreases home@.len() - i,
                {
                    let ghost held = whole@;
                    whole.push(home[i].clone());
                    assert(views(whole@) =~= views(held).push(home@[i as int]@));
                    assert(views(whole@) =~= views(home@).take(i + 1));
                    i += 1;
                }
                assert(views(whole@) =~= views(home@));
                let mut k: usize = 0;
                while k < path.components.len()
                    invariant
                        k <= path.components@.len(),
                        views(whole@) == views(home@) + path@.take(k as int),
                    decreases path.components@.len() - k,
                {
                    let ghost held = whole@;
                    whole.push(path.components[k].clone());
                    assert(views(whole@) =~= views(held).push(path.components@[k as int]@));
                    assert(views(whole@) =~= views(home@) + path@.take(k + 1));
                    k += 1;
                }
                assert(path@.take(k as int) =~= path@);
                message.append(joined_text(&whole).as_str());
                message
            },
        }
    }
}

/// The last component of a path, which is not empty.
fn file_name(path: &SandboxPath) -> (name: &EntryName)
    requires
        path@.len() > 0,
    ensures
        name@ == path@.last(),
{
    &path.components[path.components.len() - 1]
}

/// Whether a slot may be synchronized.
fn is_permitted(slot: u8, allowed: &Option<BTreeSet<u8>>, excluded: &BTreeSet<u8>) -> (yes: bool)
    ensures
        yes == permitted(slot, restriction(*allowed), excluded@),
{
    if excluded.contains(&slot) {
        return false;
    }
    match allowed {
        Some(slots) => slots.contains(&slot),
        None => true,
    }
}

/// The permitted slots of which there is a Repentance or Repentance+ save.
fn collect_repentance_slots(
    files: &Vec<SandboxPath>,
    allowed: &Option<BTreeSet<u8>>,
    excluded: &BTreeSet<u8>,
) -> (slots: BTreeSet<u8>)
    requires
        forall|i: int| 0 <= i < files@.len() ==> (#[trigger] files@[i])@.len() > 0,
    ensures
        forall|slot: u8| #[trigger]
            slots@.contains(slot) == (permitted(slot, restriction(*allowed), excluded@)
                && has_repentance(views(files@), slot)),
{
    let ghost paths = views(files@);
    let mut slots: BTreeSet<u8> = BTreeSet::new();
    let mut i: usize = 0;
    while i < files.len()
        invariant
            i <= files@.len(),
            paths == views(files@),
            forall|k: int| 0 <= k < files@.len() ==> (#[trigger] files@[k])@.len() > 0,
            forall|slot: u8| #[trigger]
                slots@.contains(slot) == (permitted(slot, restriction(*allowed), excluded@)
                    && exists|k: int| 0 <= k < i && #[trigger] is_repentance_save(paths[k], slot)),
        decreases files@.len() - i,
    {
        let ghost before = slots@;
        let name: &EntryName = file_name(&files[i]);
        assert(name@ == paths[i as int].last());
        let slot: Option<u8> = slot_for_filename(name.text.as_str());
        if let Some(slot) = slot {
            if is_permitted(slot, allowed, excluded) && is_repentance_name(name.text.as_str()) {
                slots.insert(slot);
                assert(is_repentance_save(paths[i as int], slot));
            }
        }
        assert forall|slot: u8| #[trigger]
            slots@.contains(slot) == (permitted(slot, restriction(*allowed), excluded@)
                && exists|k: int| 0 <= k < i + 1 && #[trigger] is_repentance_save(
                paths[k],
                slot,
            )) by {
            assert(slots@.contains(slot) == (before.contains(slot) || (permitted(
                slot,
                restriction(*allowed),
                excluded@,
            ) && is_repentance_save(paths[i as int], slot))));
        }
        i += 1;
    }
    slots
}

proof fn files_have_names(sandbox: Sandbox, i: int)
    requires
        0 <= i < files_of(sandbox).len(),
    ensures
        files_of(sandbox)[i].len() > 0,
{
    let documents = crate::discovery::files_below(
        crate::discovery::documents_name(),
        sandbox.documents,
    );
    if i < documents.len() {
        crate::discovery::files_are_live(
            seq![crate::discovery::documents_name()],
            sandbox.documents.unwrap()@,
            0,
            i,
        );
    } else {
        crate::discovery::files_are_live(
            seq![crate::discovery::library_name()],
            sandbox.library.unwrap()@,
            0,
            i - documents.len(),
        );
    }
}

/// The files to synchronize, in the order in which they were found. Each of them is then read.
pub fn discovery_candidates(
    sandbox: &Sandbox,
    excluded: &BTreeSet<u8>,
    allowed: &Option<BTreeSet<u8>>,
) -> (chosen: Vec<SandboxPath>)
    ensures
        views(chosen@) == candidates(
            files_of(*sandbox),
            restriction(*allowed),
            excluded@,
        ),
{
    let files: Vec<SandboxPath> = sandbox_files(sandbox);
    let ghost paths = views(files@);
    proof {
        assert forall|i: int| 0 <= i < files@.len() implies (#[trigger] files@[i])@.len() > 0 by {
            files_have_names(*sandbox, i);
            assert(paths[i] == files@[i]@);
        }
    }
    let repentance: BTreeSet<u8> = collect_repentance_slots(&files, allowed, excluded);
    let mut chosen: Vec<SandboxPath> = Vec::new();
    let ghost wanted = |path: Seq<NameView>|
        is_candidate(paths, path, restriction(*allowed), excluded@);
    let mut i: usize = 0;
    proof {
        reveal(Seq::filter);
        assert(views(chosen@) =~= paths.take(0).filter(wanted));
    }
    while i < files.len()
        invariant
            i <= files@.len(),
            paths == views(files@),
            forall|k: int| 0 <= k < files@.len() ==> (#[trigger] files@[k])@.len() > 0,
            forall|slot: u8| #[trigger]
                repentance@.contains(slot) == (permitted(slot, restriction(*allowed), excluded@)
                    && has_repentance(paths, slot)),
            wanted == (|path: Seq<NameView>|
                is_candidate(paths, path, restriction(*allowed), excluded@)),
            views(chosen@) == paths.take(i as int).filter(wanted),
        decreases files@.len() - i,
    {
        let ghost held = chosen@;
        proof {
            reveal(Seq::filter);
            let upto = paths.take(i + 1);
            assert(upto.drop_last() =~= paths.take(i as int));
            assert(upto.last() == files@[i as int]@);
        }
        let name: &EntryName = file_name(&files[i]);
        let slot: Option<u8> = slot_for_filename(name.text.as_str());
        if let Some(slot) = slot {
            if is_permitted(slot, allowed, excluded) && (!repentance.contains(&slot)
                || is_repentance_name(name.text.as_str())) {
                assert(wanted(files@[i as int]@));
                let path: SandboxPath = files[i].clone();
                chosen.push(path);
                assert(views(chosen@) =~= views(held).push(files@[i as int]@));
            }
        }
        i += 1;
    }
    assert(paths.take(i as int) =~= paths);
    chosen
}

/// The saves of the sandbox in the order of their paths, or why they could not be found.
pub open spec fn discovered(
    sandbox: Sandbox,
    excluded: Set<u8>,
    allowed: Option<Set<u8>>,
    reads: Seq<Result<FileIdentity, ReadError>>,
    skip_invalid: bool,
) -> Result<Seq<LocalView>, DiscoveryFailure> {
    let paths = candidates(files_of(sandbox), allowed, excluded);
    match found(paths, reads, skip_invalid, paths.len() as int) {
        Ok(saves) => Ok(sorted_form::<LocalSave>(saves)),
        Err(failure) => Err(failure),
    }
}

/// What a search for saves gave, in the terms of its contract.
pub open spec fn search_view(result: Result<Vec<LocalSave>, DiscoveryError>) -> Result<
    Seq<LocalView>,
    DiscoveryFailure,
> {
    match result {
        Ok(saves) => Ok(views(saves@)),
        Err(error) => Err(error@),
    }
}

proof fn failure_persists(
    paths: Seq<Seq<NameView>>,
    reads: Seq<Result<FileIdentity, ReadError>>,
    skip_invalid: bool,
    count: int,
    later: int,
)
    requires
        0 <= count <= later,
        found(paths, reads, skip_invalid, count) is Err,
    ensures
        found(paths, reads, skip_invalid, later) == found(paths, reads, skip_invalid, count),
    decreases later,
{
    if count < later {
        failure_persists(paths, reads, skip_invalid, count, later - 1);
    }
}

proof fn candidates_have_slots(
    files: Seq<Seq<NameView>>,
    allowed: Option<Set<u8>>,
    excluded: Set<u8>,
)
    ensures
        forall|i: int|
            0 <= i < candidates(files, allowed, excluded).len() ==> is_candidate(
                files,
                #[trigger] candidates(files, allowed, excluded)[i],
                allowed,
                excluded,
            ) && files.contains(candidates(files, allowed, excluded)[i]),
{
    let wanted = |path: Seq<NameView>| is_candidate(files, path, allowed, excluded);
    broadcast use vstd::seq_lib::group_filter_ensures;

    let chosen = files.filter(wanted);
    assert forall|i: int| 0 <= i < chosen.len() implies is_candidate(
        files,
        #[trigger] chosen[i],
        allowed,
        excluded,
    ) && files.contains(chosen[i]) by {
        assert(wanted(chosen[i]));
        assert(chosen.contains(chosen[i]));
        files.lemma_filter_contains_rev(wanted, chosen[i]);
    }
}

fn discover_saves_internal(
    sandbox: &Sandbox,
    excluded: &BTreeSet<u8>,
    allowed: &Option<BTreeSet<u8>>,
    reads: &Vec<Result<FileIdentity, ReadError>>,
    skip_invalid: bool,
) -> (result: Result<Vec<LocalSave>, DiscoveryError>)
    requires
        reads_cover(
            reads@,
            skip_invalid,
            candidates(
                files_of(*sandbox),
                restriction(*allowed),
                excluded@,
            ).len(),
        ),
    ensures
        search_view(result) == discovered(
            *sandbox,
            excluded@,
            restriction(*allowed),
            reads@,
            skip_invalid,
        ),
{
    let chosen: Vec<SandboxPath> = discovery_candidates(sandbox, excluded, allowed);
    let ghost paths = views(chosen@);
    proof {
        candidates_have_slots(
            files_of(*sandbox),
            restriction(*allowed),
            excluded@,
        );
        assert forall|k: int| 0 <= k < paths.len() implies slot_of(name_of(#[trigger] paths[k]))
            is Some && paths[k].len() > 0 by {
            let files = files_of(*sandbox);
            let at = choose|at: int| 0 <= at < files.len() && files[at] == paths[k];
            files_have_names(*sandbox, at);
        }
    }
    let mut saves: Vec<LocalSave> = Vec::new();
    assert(views(saves@) =~= Seq::<LocalView>::empty());
    let mut i: usize = 0;
    while i < chosen.len()
        invariant
            i <= chosen@.len(),
            paths == views(chosen@),
            forall|k: int|
                0 <= k < paths.len() ==> slot_of(name_of(#[trigger] paths[k])) is Some
                    && paths[k].len() > 0,
            reads_cover(reads@, skip_invalid, paths.len()),
            found(paths, reads@, skip_invalid, i as int) == Ok::<Seq<LocalView>, DiscoveryFailure>(
                views(saves@),
            ),
            i <= reads@.len(),
            discovered(
                *sandbox,
                excluded@,
                restriction(*allowed),
                reads@,
                skip_invalid,
            ) == match found(paths, reads@, skip_invalid, paths.len() as int) {
                Ok(saves) => Ok(sorted_form::<LocalSave>(saves)),
                Err(failure) => Err(failure),
            },
        decreases chosen@.len() - i,
    {
        proof {
            if i == reads@.len() {
                assert(reads@[i - 1] is Err);
                assert(found(paths, reads@, skip_invalid, i as int) is Err);
            }
            assert(paths[i as int] == chosen@[i as int]@);
        }
        let name: &EntryName = file_name(&chosen[i]);
        let slot: u8 = match slot_for_filename(name.text.as_str()) {
            Some(slot) => slot,
            None => 0,
        };
        match &reads[i] {
            Ok(identity) => {
                if identity.size > MAX_SAVE_SIZE as u64 {
                    proof {
                        failure_persists(paths, reads@, skip_invalid, i + 1, paths.len() as int);
                    }
                    return Err(DiscoveryError::TooLarge { path: chosen[i].clone() });
                }
                let ghost held = saves@;
                let save: LocalSave = LocalSave {
                    slot,
                    path: chosen[i].clone(),
                    relative_path: joined_text(&chosen[i].components),
                    identity: identity.clone(),
                };
                assert(save@ == save_at(paths[i as int], identity@));
                saves.push(save);
                assert(views(saves@) =~= views(held).push(save_at(paths[i as int], identity@)));
            },
            Err(error) => {
                if !skip_invalid {
                    proof {
                        failure_persists(paths, reads@, skip_invalid, i + 1, paths.len() as int);
                    }
                    return Err(DiscoveryError::Unreadable { slot, error: error.clone() });
                }
            },
        }
        i += 1;
    }
    Ok(stable_sort(saves))
}

/// The saves of the sandbox. A file that is no valid save ends the search.
pub fn discover_saves(
    sandbox: &Sandbox,
    excluded: &BTreeSet<u8>,
    reads: &Vec<Result<FileIdentity, ReadError>>,
) -> (result: Result<Vec<LocalSave>, DiscoveryError>)
    requires
        reads_cover(
            reads@,
            false,
            candidates(files_of(*sandbox), None, excluded@).len(),
        ),
    ensures
        search_view(result) == discovered(
            *sandbox,
            excluded@,
            None,
            reads@,
            false,
        ),
{
    discover_saves_internal(sandbox, excluded, &None, reads, false)
}

/// The saves of the sandbox as they are. The game can leave a slot truncated until it is
/// started again; such a file is passed over, and the other slots are kept.
pub fn discover_saves_immediate(
    sandbox: &Sandbox,
    excluded: &BTreeSet<u8>,
    reads: &Vec<Result<FileIdentity, ReadError>>,
) -> (result: Result<Vec<LocalSave>, DiscoveryError>)
    requires
        reads_cover(
            reads@,
            true,
            candidates(files_of(*sandbox), None, excluded@).len(),
        ),
    ensures
        search_view(result) == discovered(
            *sandbox,
            excluded@,
            None,
            reads@,
            true,
        ),
{
    discover_saves_internal(sandbox, excluded, &None, reads, true)
}

/// The saves of some slots. A file that is no valid save ends the search.
pub fn discover_saves_for_slots(
    sandbox: &Sandbox,
    excluded: &BTreeSet<u8>,
    allowed: &Option<BTreeSet<u8>>,
    reads: &Vec<Result<FileIdentity, ReadError>>,
) -> (result: Result<Vec<LocalSave>, DiscoveryError>)
    requires
        reads_cover(
            reads@,
            false,
            candidates(
                files_of(*sandbox),
                restriction(*allowed),
                excluded@,
            ).len(),
        ),
    ensures
        search_view(result) == discovered(
            *sandbox,
            excluded@,
            restriction(*allowed),
            reads@,
            false,
        ),
{
    discover_saves_internal(sandbox, excluded, allowed, reads, false)
}

/// Whether a save is what reading the file at `paths[i]` gave.
spec fn comes_from(
    paths: Seq<Seq<NameView>>,
    reads: Seq<Result<FileIdentity, ReadError>>,
    save: LocalView,
    i: int,
) -> bool {
    reads[i] is Ok && save == save_at(paths[i], reads[i]->Ok_0@)
}

/// Whether a save is what reading one of the first `count` files gave.
spec fn comes_from_one(
    paths: Seq<Seq<NameView>>,
    reads: Seq<Result<FileIdentity, ReadError>>,
    save: LocalView,
    count: int,
) -> bool {
    exists|i: int| 0 <= i < count && #[trigger] comes_from(paths, reads, save, i)
}

proof fn found_comes_from_paths(
    paths: Seq<Seq<NameView>>,
    reads: Seq<Result<FileIdentity, ReadError>>,
    skip_invalid: bool,
    count: int,
)
    requires
        0 <= count <= paths.len(),
    ensures
        found(paths, reads, skip_invalid, count) matches Ok(saves) ==> forall|k: int|
            0 <= k < saves.len() ==> comes_from_one(paths, reads, #[trigger] saves[k], count),
    decreases count,
{
    if count > 0 {
        found_comes_from_paths(paths, reads, skip_invalid, count - 1);
        if found(paths, reads, skip_invalid, count) is Ok {
            let saves = found(paths, reads, skip_invalid, count)->Ok_0;
            let before = found(paths, reads, skip_invalid, count - 1)->Ok_0;
            assert forall|k: int| 0 <= k < saves.len() implies comes_from_one(
                paths,
                reads,
                #[trigger] saves[k],
                count,
            ) by {
                if k < before.len() {
                    assert(saves[k] == before[k]);
                    let i = choose|i: int|
                        0 <= i < count - 1 && comes_from(paths, reads, before[k], i);
                    assert(comes_from(paths, reads, saves[k], i));
                } else {
                    assert(comes_from(paths, reads, saves[k], count - 1));
                }
            }
        }
    }
}

proof fn different_paths_are_ordered(a: Seq<NameView>, b: Seq<NameView>)
    requires
        byte_path(a) != byte_path(b),
    ensures
        path_before(a, b) || path_before(b, a),
    decreases a.len(),
{
    if a.len() == 0 && b.len() == 0 {
        assert(byte_path(a) =~= byte_path(b));
    } else if a.len() > 0 && b.len() > 0 {
        bytes_order(a[0].bytes, b[0].bytes, a[0].bytes);
        if a[0].bytes == b[0].bytes {
            if byte_path(a.drop_first()) == byte_path(b.drop_first()) {
                assert(byte_path(a) =~= seq![a[0].bytes] + byte_path(a.drop_first()));
                assert(byte_path(b) =~= seq![b[0].bytes] + byte_path(b.drop_first()));
            }
            different_paths_are_ordered(a.drop_first(), b.drop_first());
        }
    }
}

proof fn chosen_paths_differ(paths: Seq<Seq<NameView>>, wanted: spec_fn(Seq<NameView>) -> bool)
    requires
        no_path_twice(paths),
    ensures
        no_path_twice(paths.filter(wanted)),
    decreases paths.len(),
{
    broadcast use vstd::seq_lib::group_filter_ensures;

    if paths.len() > 0 {
        let rest = paths.drop_last();
        assert(no_path_twice(rest)) by {
            assert forall|i: int, j: int| 0 <= i < j < rest.len() implies byte_path(
                #[trigger] rest[i],
            ) != byte_path(#[trigger] rest[j]) by {
                assert(rest[i] == paths[i] && rest[j] == paths[j]);
            }
        }
        chosen_paths_differ(rest, wanted);
        let fewer = rest.filter(wanted);
        let chosen = paths.filter(wanted);
        assert(chosen == if wanted(paths.last()) {
            fewer.push(paths.last())
        } else {
            fewer
        }) by {
            reveal(Seq::filter);
        }
        assert forall|i: int, j: int| 0 <= i < j < chosen.len() implies byte_path(
            #[trigger] chosen[i],
        ) != byte_path(#[trigger] chosen[j]) by {
            assert(chosen[i] == fewer[i]);
            if j < fewer.len() {
                assert(chosen[j] == fewer[j]);
            } else {
                assert(fewer.contains(fewer[i]));
                rest.lemma_filter_contains_rev(wanted, fewer[i]);
                let at = choose|at: int| 0 <= at < rest.len() && rest[at] == fewer[i];
                assert(paths[at] == chosen[i]);
                assert(paths[paths.len() - 1] == chosen[j]);
            }
        }
    }
}

proof fn found_saves_differ(
    paths: Seq<Seq<NameView>>,
    reads: Seq<Result<FileIdentity, ReadError>>,
    skip_invalid: bool,
    count: int,
)
    requires
        0 <= count <= paths.len(),
        no_path_twice(paths),
    ensures
        found(paths, reads, skip_invalid, count) matches Ok(saves) ==> all_differ::<LocalSave>(
            saves,
        ),
    decreases count,
{
    if count > 0 {
        found_saves_differ(paths, reads, skip_invalid, count - 1);
        found_comes_from_paths(paths, reads, skip_invalid, count - 1);
        if found(paths, reads, skip_invalid, count) is Ok {
            let saves = found(paths, reads, skip_invalid, count)->Ok_0;
            let before = found(paths, reads, skip_invalid, count - 1)->Ok_0;
            assert forall|i: int, j: int| 0 <= i < j < saves.len() implies LocalSave::precedes(
                saves[i],
                saves[j],
            ) || LocalSave::precedes(saves[j], saves[i]) by {
                assert(saves[i] == before[i]);
                if j < before.len() {
                    assert(saves[j] == before[j]);
                } else {
                    assert(comes_from_one(paths, reads, before[i], count - 1));
                    let at = choose|at: int|
                        0 <= at < count - 1 && comes_from(paths, reads, before[i], at);
                    assert(byte_path(paths[at]) != byte_path(paths[count - 1]));
                    different_paths_are_ordered(paths[at], paths[count - 1]);
                }
            }
        }
    }
}

/// Every save that a search finds is one of the live files of the sandbox, belongs by its name to
/// the slot it is listed under, lies in a permitted slot, and is no older generation beside a
/// Repentance save. Where no directory lists a name twice, the saves come in the strictly
/// ascending order of their paths.
pub proof fn discovered_saves_are_permitted(
    sandbox: Sandbox,
    excluded: Set<u8>,
    allowed: Option<Set<u8>>,
    reads: Seq<Result<FileIdentity, ReadError>>,
    skip_invalid: bool,
)
    ensures
        discovered(sandbox, excluded, allowed, reads, skip_invalid) matches Ok(saves) ==> {
            &&& sandbox.wf() ==> ascends::<LocalSave>(saves)
            &&& forall|k: int|
                0 <= k < saves.len() ==> {
                    let save = #[trigger] saves[k];
                    &&& files_of(sandbox).contains(save.path)
                    &&& is_live_path(save.path)
                    &&& slot_of(name_of(save.path)) == Some(save.slot)
                    &&& permitted(save.slot, allowed, excluded)
                    &&& has_repentance(files_of(sandbox), save.slot) ==> is_rep_name(
                        name_of(save.path),
                    )
                    &&& save.relative_path == joined(save.path)
                }
        },
{
    let files = files_of(sandbox);
    let paths = candidates(files, allowed, excluded);
    let result = found(paths, reads, skip_invalid, paths.len() as int);
    if result is Ok {
        let unsorted = result->Ok_0;
        let saves = sorted_form::<LocalSave>(unsorted);
        if sandbox.wf() {
            files_are_found_once(sandbox);
            chosen_paths_differ(
                files,
                |path: Seq<NameView>| is_candidate(files, path, allowed, excluded),
            );
            found_saves_differ(paths, reads, skip_invalid, paths.len() as int);
            different_items_ascend::<LocalSave>(unsorted);
        }
        sorting_orders::<LocalSave>(unsorted);
        found_comes_from_paths(paths, reads, skip_invalid, paths.len() as int);
        candidates_have_slots(files, allowed, excluded);
        assert forall|k: int| 0 <= k < saves.len() implies ({
            let save = #[trigger] saves[k];
            &&& files.contains(save.path)
            &&& is_live_path(save.path)
            &&& slot_of(name_of(save.path)) == Some(save.slot)
            &&& permitted(save.slot, allowed, excluded)
            &&& has_repentance(files, save.slot) ==> is_rep_name(name_of(save.path))
            &&& save.relative_path == joined(save.path)
        }) by {
            broadcast use vstd::seq_lib::group_to_multiset_ensures;

            assert(saves.to_multiset().count(saves[k]) > 0);
            assert(unsorted.to_multiset().count(saves[k]) > 0);
            assert(unsorted.contains(saves[k]));
            let at = choose|at: int| 0 <= at < unsorted.len() && unsorted[at] == saves[k];
            assert(unsorted[at] == saves[k]);
            let i = choose|i: int|
                0 <= i < paths.len() && comes_from(paths, reads, unsorted[at], i);
            assert(is_candidate(files, paths[i], allowed, excluded));
            sandbox_files_are_live(sandbox, paths[i]);
        }
    }
}

/// What reading a file gave, in the terms of its contract.
pub open spec fn read_view(read: Result<FileIdentity, ReadError>) -> Result<
    IdentityView,
    ReadFailure,
> {
    match read {
        Ok(identity) => Ok(identity@),
        Err(error) => Err(error@),
    }
}

/// Whether every read was of a file that holds `contents` and was last changed at its time, and
/// that stays as it is.
pub open spec fn reads_quiet_files(
    reads: Seq<Result<FileIdentity, ReadError>>,
    contents: Seq<Seq<u8>>,
    times: Seq<Option<u64>>,
) -> bool {
    forall|i: int|
        0 <= i < reads.len() ==> {
            let stat = FileStat { len: contents[i].len() as u64, modified_unix_ms: times[i] };
            &&& contents[i].len() <= u64::MAX
            &&& read_view(#[trigger] reads[i]) == read_identity(stat, contents[i], stat)
        }
}

/// The save in a file at `path` that holds `contents` and was last changed at `time`, where its
/// bytes have a canonical form.
pub open spec fn save_in(path: Seq<NameView>, contents: Seq<u8>, time: Option<u64>) -> Option<
    LocalView,
> {
    match canonical_form(contents) {
        Ok((bytes, _)) => Some(
            save_at(path, IdentityView { modified_unix_ms: time, ..identity_of(bytes) }),
        ),
        Err(_) => None,
    }
}

/// Whether a save is the one in one of the files at `paths`, which hold `contents`.
pub open spec fn is_save_among(
    paths: Seq<Seq<NameView>>,
    contents: Seq<Seq<u8>>,
    times: Seq<Option<u64>>,
    save: LocalView,
) -> bool {
    exists|i: int|
        0 <= i < paths.len() && #[trigger] save_in(paths[i], contents[i], times[i]) == Some(save)
}

/// The saves in the first `count` of the files at `paths`, which hold `contents`.
pub open spec fn valid_saves(
    paths: Seq<Seq<NameView>>,
    contents: Seq<Seq<u8>>,
    times: Seq<Option<u64>>,
    count: int,
) -> Seq<LocalView>
    decreases count,
{
    if count <= 0 {
        seq![]
    } else {
        let before = valid_saves(paths, contents, times, count - 1);
        match save_in(paths[count - 1], contents[count - 1], times[count - 1]) {
            Some(save) => before.push(save),
            None => before,
        }
    }
}

proof fn valid_saves_are_kept(
    paths: Seq<Seq<NameView>>,
    contents: Seq<Seq<u8>>,
    times: Seq<Option<u64>>,
    count: int,
    at: int,
)
    requires
        0 <= at < count,
        save_in(paths[at], contents[at], times[at]) is Some,
    ensures
        valid_saves(paths, contents, times, count).contains(
            save_in(paths[at], contents[at], times[at]).unwrap(),
        ),
    decreases count,
{
    let saves = valid_saves(paths, contents, times, count);
    let save = save_in(paths[at], contents[at], times[at]).unwrap();
    if at == count - 1 {
        assert(saves.last() == save);
    } else {
        let before = valid_saves(paths, contents, times, count - 1);
        valid_saves_are_kept(paths, contents, times, count - 1, at);
        let k = choose|k: int| 0 <= k < before.len() && before[k] == save;
        assert(saves[k] == save);
    }
}

proof fn kept_saves_are_valid(
    paths: Seq<Seq<NameView>>,
    contents: Seq<Seq<u8>>,
    times: Seq<Option<u64>>,
    count: int,
    k: int,
) -> (at: int)
    requires
        0 <= k < valid_saves(paths, contents, times, count).len(),
    ensures
        0 <= at < count,
        save_in(paths[at], contents[at], times[at]) == Some(
            valid_saves(paths, contents, times, count)[k],
        ),
    decreases count,
{
    let before = valid_saves(paths, contents, times, count - 1);
    if k < before.len() {
        kept_saves_are_valid(paths, contents, times, count - 1, k)
    } else {
        count - 1
    }
}

proof fn quiet_files_are_found(
    paths: Seq<Seq<NameView>>,
    reads: Seq<Result<FileIdentity, ReadError>>,
    contents: Seq<Seq<u8>>,
    times: Seq<Option<u64>>,
    count: int,
)
    requires
        0 <= count <= reads.len(),
        reads_quiet_files(reads, contents, times),
    ensures
        found(paths, reads, true, count) == Ok::<Seq<LocalView>, DiscoveryFailure>(
            valid_saves(paths, contents, times, count),
        ),
        (forall|i: int| 0 <= i < count ==> canonical_form(#[trigger] contents[i]) is Ok) ==> found(
            paths,
            reads,
            false,
            count,
        ) == Ok::<Seq<LocalView>, DiscoveryFailure>(valid_saves(paths, contents, times, count)),
    decreases count,
{
    if count > 0 {
        quiet_files_are_found(paths, reads, contents, times, count - 1);
        let raw = contents[count - 1];
        canonical_form_is_stable(raw);
        assert(read_view(reads[count - 1]) is Ok == (canonical_form(raw) is Ok)) by {
            if canonical_form(raw) is Ok {
                assert(raw.len() <= MAX_SAVE_SIZE);
            }
        }
        if let Ok((bytes, _)) = canonical_form(raw) {
            assert(bytes.len() <= MAX_SAVE_SIZE);
            assert(reads[count - 1]->Ok_0@.size == bytes.len());
        }
    }
}

/// Where no file changes, the search for the saves as they are never fails: of the files that
/// are chosen by their names alone it finds exactly those whose bytes are a save, in the order
/// of their paths. The search that ends at an invalid file finds the same where there is none.
pub proof fn immediate_search_passes_over_invalid_files(
    sandbox: Sandbox,
    excluded: Set<u8>,
    contents: Seq<Seq<u8>>,
    times: Seq<Option<u64>>,
    reads: Seq<Result<FileIdentity, ReadError>>,
)
    requires
        reads.len() == candidates(files_of(sandbox), None, excluded).len(),
        reads_quiet_files(reads, contents, times),
    ensures
        ({
            let paths = candidates(files_of(sandbox), None, excluded);
            let saves = sorted_form::<LocalSave>(
                valid_saves(paths, contents, times, paths.len() as int),
            );
            &&& discovered(sandbox, excluded, None, reads, true) == Ok::<_, DiscoveryFailure>(saves)
            &&& (forall|i: int|
                0 <= i < paths.len() ==> canonical_form(#[trigger] contents[i]) is Ok)
                ==> discovered(sandbox, excluded, None, reads, false) == Ok::<_, DiscoveryFailure>(
                saves,
            )
            &&& forall|save: LocalView| #[trigger]
                saves.contains(save) <==> is_save_among(paths, contents, times, save)
            &&& sandbox.wf() ==> ascends::<LocalSave>(saves)
        }),
{
    broadcast use vstd::seq_lib::group_to_multiset_ensures;

    let paths = candidates(files_of(sandbox), None, excluded);
    let count = paths.len() as int;
    let unsorted = valid_saves(paths, contents, times, count);
    let saves = sorted_form::<LocalSave>(unsorted);
    quiet_files_are_found(paths, reads, contents, times, count);
    sorting_orders::<LocalSave>(unsorted);
    discovered_saves_are_permitted(sandbox, excluded, None, reads, true);
    assert forall|save: LocalView| #[trigger]
        saves.contains(save) <==> is_save_among(paths, contents, times, save) by {
        assert(saves.contains(save) <==> saves.to_multiset().count(save) > 0);
        assert(unsorted.contains(save) <==> unsorted.to_multiset().count(save) > 0);
        if unsorted.contains(save) {
            let at = choose|at: int| 0 <= at < unsorted.len() && unsorted[at] == save;
            let i = kept_saves_are_valid(paths, contents, times, count, at);
            assert(save_in(paths[i], contents[i], times[i]) == Some(save));
        }
        if is_save_among(paths, contents, times, save) {
            let i = choose|i: int|
                0 <= i < paths.len() && #[trigger] save_in(paths[i], contents[i], times[i]) == Some(
                    save,
                );
            valid_saves_are_kept(paths, contents, times, count, i);
        }
    }
}

/// What reading each of the files gave, where `read` says what reading a file gives.
pub open spec fn reads_by(
    paths: Seq<Seq<NameView>>,
    read: spec_fn(Seq<NameView>) -> Result<FileIdentity, ReadError>,
) -> Seq<Result<FileIdentity, ReadError>> {
    Seq::new(paths.len(), |i: int| read(paths[i]))
}

proof fn choosing_twice(
    paths: Seq<Seq<NameView>>,
    first: spec_fn(Seq<NameView>) -> bool,
    second: spec_fn(Seq<NameView>) -> bool,
    both: spec_fn(Seq<NameView>) -> bool,
)
    requires
        forall|path: Seq<NameView>| #[trigger] both(path) == (first(path) && second(path)),
    ensures
        paths.filter(both) == paths.filter(first).filter(second),
    decreases paths.len(),
{
    reveal(Seq::filter);
    if paths.len() > 0 {
        choosing_twice(paths.drop_last(), first, second, both);
        let last = paths.last();
        assert(both(last) == (first(last) && second(last)));
        if first(last) {
            assert(paths.filter(first).drop_last() =~= paths.drop_last().filter(first));
        }
    }
}

proof fn found_in_prefix(
    paths: Seq<Seq<NameView>>,
    more: Seq<Seq<NameView>>,
    read: spec_fn(Seq<NameView>) -> Result<FileIdentity, ReadError>,
    count: int,
)
    requires
        0 <= count <= paths.len(),
        paths.len() <= more.len(),
        more.take(paths.len() as int) == paths,
    ensures
        found(more, reads_by(more, read), false, count) == found(
            paths,
            reads_by(paths, read),
            false,
            count,
        ),
    decreases count,
{
    if count > 0 {
        found_in_prefix(paths, more, read, count - 1);
        assert(more[count - 1] == more.take(paths.len() as int)[count - 1]);
    }
}

proof fn found_saves_are_filtered(
    paths: Seq<Seq<NameView>>,
    read: spec_fn(Seq<NameView>) -> Result<FileIdentity, ReadError>,
    wanted: spec_fn(Seq<NameView>) -> bool,
    keep: spec_fn(LocalView) -> bool,
)
    requires
        forall|i: int, identity: IdentityView|
            0 <= i < paths.len() ==> #[trigger] keep(save_at(paths[i], identity)) == wanted(
                paths[i],
            ),
    ensures
        found(paths, reads_by(paths, read), false, paths.len() as int) matches Ok(saves) ==> found(
            paths.filter(wanted),
            reads_by(paths.filter(wanted), read),
            false,
            paths.filter(wanted).len() as int,
        ) == Ok::<Seq<LocalView>, DiscoveryFailure>(saves.filter(keep)),
    decreases paths.len(),
{
    reveal(Seq::filter);
    let result = found(paths, reads_by(paths, read), false, paths.len() as int);
    if paths.len() > 0 && result is Ok {
        let rest = paths.drop_last();
        let last = paths.last();
        assert(paths.take(rest.len() as int) =~= rest);
        assert forall|i: int, identity: IdentityView| 0 <= i < rest.len() implies #[trigger] keep(
            save_at(rest[i], identity),
        ) == wanted(rest[i]) by {
            assert(rest[i] == paths[i]);
            assert(keep(save_at(paths[i], identity)) == wanted(paths[i]));
        }
        found_in_prefix(rest, paths, read, rest.len() as int);
        found_saves_are_filtered(rest, read, wanted, keep);
        let fewer = rest.filter(wanted);
        let chosen = paths.filter(wanted);
        let saves = result->Ok_0;
        let identity = read(last)->Ok_0@;
        assert(saves.last() == save_at(last, identity));
        assert(keep(save_at(paths[paths.len() - 1], identity)) == wanted(last));
        assert(saves.drop_last() =~= found(
            rest,
            reads_by(rest, read),
            false,
            rest.len() as int,
        )->Ok_0);
        if wanted(last) {
            assert(chosen == fewer.push(last));
            assert(chosen.take(fewer.len() as int) =~= fewer);
            found_in_prefix(fewer, chosen, read, fewer.len() as int);
            assert(chosen[chosen.len() - 1] == last);
        }
    }
}

/// As long as reading a file gives the same, a set of slots only filters what the search for all
/// of them finds, in the same order. It brings no excluded slot back.
pub proof fn slots_only_filter_the_search(
    sandbox: Sandbox,
    excluded: Set<u8>,
    allowed: Set<u8>,
    read: spec_fn(Seq<NameView>) -> Result<FileIdentity, ReadError>,
)
    ensures
        ({
            let all = candidates(files_of(sandbox), None, excluded);
            let some = candidates(files_of(sandbox), Some(allowed), excluded);
            let kept = discovered(sandbox, excluded, Some(allowed), reads_by(some, read), false);
            &&& discovered(sandbox, excluded, None, reads_by(all, read), false) matches Ok(saves)
                ==> kept == Ok::<Seq<LocalView>, DiscoveryFailure>(
                saves.filter(|save: LocalView| allowed.contains(save.slot)),
            )
            &&& kept matches Ok(saves) ==> forall|k: int|
                0 <= k < saves.len() ==> !excluded.contains((#[trigger] saves[k]).slot)
        }),
{
    let files = files_of(sandbox);
    let all = candidates(files, None, excluded);
    let some = candidates(files, Some(allowed), excluded);
    let of_all = |path: Seq<NameView>| is_candidate(files, path, None, excluded);
    let of_some = |path: Seq<NameView>| is_candidate(files, path, Some(allowed), excluded);
    let wanted = |path: Seq<NameView>| allowed.contains(slot_of(name_of(path)).unwrap());
    let keep = |save: LocalView| allowed.contains(save.slot);
    discovered_saves_are_permitted(
        sandbox,
        excluded,
        Some(allowed),
        reads_by(some, read),
        false,
    );
    choosing_twice(files, of_all, wanted, of_some);
    assert(some == all.filter(wanted));
    found_saves_are_filtered(all, read, wanted, keep);
    let result = found(all, reads_by(all, read), false, all.len() as int);
    if result is Ok {
        sorting_filters::<LocalSave>(result->Ok_0, keep);
    }
}

/// Why there is no file for a backup to replace.
#[derive(Debug, Clone, Copy, PartialEq, Eq, Structural)]
pub enum LocateError {
    /// The backup's file name belongs to another slot or to none.
    FilenameMismatch,
    /// The slot is excluded from synchronization.
    Excluded(u8),
    /// No file belongs to the slot.
    NotFound,
    /// Two files are equally good.
    Ambiguous,
}

impl LocateError {
    /// The message for the user.
    pub open spec fn text(self) -> Seq<char> {
        match self {
            LocateError::FilenameMismatch => "backup filename does not match its save slot"@,
            LocateError::Excluded(slot) => "slot "@ + decimal(slot as nat)
                + " is excluded from sync"@,
            LocateError::NotFound => "live save slot not found for queued restore"@,
            LocateError::Ambiguous =>
                "multiple equally preferred live save files found for queued restore"@,
        }
    }

    /// The message for the user.
    pub fn message(&self) -> (message: String)
        ensures
            message@ == self.text(),
    {
        match self {
            LocateError::FilenameMismatch => "backup filename does not match its save slot".to_owned(),
            LocateError::Excluded(slot) => {
                let mut message: String = "slot ".to_owned();
                message.append(to_decimal(*slot as u64).as_str());
                message.append(" is excluded from sync");
                message
            },
            LocateError::NotFound => "live save slot not found for queued restore".to_owned(),
            LocateError::Ambiguous =>
                "multiple equally preferred live save files found for queued restore".to_owned(),
        }
    }
}

/// Whether a directory name is `Repentance`, whatever its case.
pub open spec fn is_repentance_directory(name: NameView) -> bool {
    name.utf8 && ascii_lower(name.text) == ascii_lower("Repentance"@)
}

/// Whether one of the components is `Repentance`.
pub open spec fn lies_in_repentance(path: Seq<NameView>) -> bool {
    exists|i: int| 0 <= i < path.len() && #[trigger] is_repentance_directory(path[i])
}

/// How well a file fits a backup, 0 best: by the backup's own file name first, then by lying
/// in a Repentance directory.
pub open spec fn restore_rank(home: Seq<NameView>, path: Seq<NameView>, preferred: Seq<char>) -> u8 {
    match (
        path.last().utf8 && ascii_lower(name_of(path)) == ascii_lower(preferred),
        lies_in_repentance(home + path),
    ) {
        (true, true) => 0,
        (true, false) => 1,
        (false, true) => 2,
        (false, false) => 3,
    }
}

/// The files of `slot`, in the order in which they were found.
pub open spec fn files_of_slot(files: Seq<Seq<NameView>>, slot: u8) -> Seq<Seq<NameView>> {
    files.filter(|path: Seq<NameView>| slot_of(name_of(path)) == Some(slot))
}

/// Whether the file at `paths[i]` fits better than every other.
pub open spec fn fits_best(
    home: Seq<NameView>,
    paths: Seq<Seq<NameView>>,
    preferred: Seq<char>,
    i: int,
) -> bool {
    0 <= i < paths.len() && forall|j: int|
        0 <= j < paths.len() && j != i ==> restore_rank(home, paths[i], preferred) < restore_rank(
            home,
            #[trigger] paths[j],
            preferred,
        )
}

/// Whether one of the components is `Repentance`.
fn has_repentance_component(path: &Vec<EntryName>) -> (found: bool)
    ensures
        found == lies_in_repentance(views(path@)),
{
    let ghost all = views(path@);
    let mut i: usize = 0;
    while i < path.len()
        invariant
            i <= path@.len(),
            all == views(path@),
            forall|k: int| 0 <= k < i ==> !#[trigger] is_repentance_directory(all[k]),
        decreases path@.len() - i,
    {
        if path[i].utf8 && eq_ignore_ascii_case(path[i].text.as_str(), "Repentance") {
            assert(is_repentance_directory(all[i as int]));
            return true;
        }
        i += 1;
    }
    false
}

/// How well a file fits a backup, 0 best.
pub fn restore_path_rank(home: &Vec<EntryName>, path: &SandboxPath, preferred_filename: &str) -> (rank:
    u8)
    requires
        path@.len() > 0,
    ensures
        rank == restore_rank(views(home@), path@, preferred_filename@),
{
    let name: &EntryName = file_name(path);
    let exact_name: bool = name.utf8 && eq_ignore_ascii_case(
        name.text.as_str(),
        preferred_filename,
    );
    let in_repentance: bool = has_repentance_component(home) || has_repentance_component(
        &path.components,
    );
    proof {
        let (h, p) = (views(home@), path@);
        assert(lies_in_repentance(h + p) == (lies_in_repentance(h) || lies_in_repentance(p))) by {
            if lies_in_repentance(h) {
                let i = choose|i: int| 0 <= i < h.len() && is_repentance_directory(h[i]);
                assert(is_repentance_directory((h + p)[i]));
            }
            if lies_in_repentance(p) {
                let i = choose|i: int| 0 <= i < p.len() && is_repentance_directory(p[i]);
                assert(is_repentance_directory((h + p)[h.len() + i]));
            }
            if lies_in_repentance(h + p) {
                let i = choose|i: int|
                    0 <= i < (h + p).len() && is_repentance_directory((h + p)[i]);
                if i < h.len() {
                    assert(is_repentance_directory(h[i]));
                } else {
                    assert(is_repentance_directory(p[i - h.len()]));
                }
            }
        }
    }
    match (exact_name, in_repentance) {
        (true, true) => 0,
        (true, false) => 1,
        (false, true) => 2,
        (false, false) => 3,
    }
}

/// The files of `slot`, in the order in which they were found.
fn walk_restore_candidates(sandbox: &Sandbox, slot: u8) -> (chosen: Vec<SandboxPath>)
    ensures
        views(chosen@) == files_of_slot(files_of(*sandbox), slot),
        forall|i: int| 0 <= i < chosen@.len() ==> (#[trigger] chosen@[i])@.len() > 0,
{
    let files: Vec<SandboxPath> = sandbox_files(sandbox);
    let ghost paths = views(files@);
    proof {
        assert forall|i: int| 0 <= i < files@.len() implies (#[trigger] files@[i])@.len() > 0 by {
            files_have_names(*sandbox, i);
            assert(paths[i] == files@[i]@);
        }
    }
    let mut chosen: Vec<SandboxPath> = Vec::new();
    let ghost wanted = |path: Seq<NameView>| slot_of(name_of(path)) == Some(slot);
    let mut i: usize = 0;
    proof {
        reveal(Seq::filter);
        assert(views(chosen@) =~= paths.take(0).filter(wanted));
    }
    while i < files.len()
        invariant
            i <= files@.len(),
            paths == views(files@),
            forall|k: int| 0 <= k < files@.len() ==> (#[trigger] files@[k])@.len() > 0,
            forall|k: int| 0 <= k < chosen@.len() ==> (#[trigger] chosen@[k])@.len() > 0,
            wanted == (|path: Seq<NameView>| slot_of(name_of(path)) == Some(slot)),
            views(chosen@) == paths.take(i as int).filter(wanted),
        decreases files@.len() - i,
    {
        let ghost held = chosen@;
        proof {
            reveal(Seq::filter);
            let upto = paths.take(i + 1);
            assert(upto.drop_last() =~= paths.take(i as int));
            assert(upto.last() == files@[i as int]@);
        }
        let found: Option<u8> = slot_for_filename(file_name(&files[i]).text.as_str());
        if let Some(found) = found {
            if found == slot {
                assert(wanted(files@[i as int]@));
                let path: SandboxPath = files[i].clone();
                chosen.push(path);
                assert(views(chosen@) =~= views(held).push(files@[i as int]@));
            }
        }
        i += 1;
    }
    assert(paths.take(i as int) =~= paths);
    chosen
}

/// Whether `result` is the file that a backup of `slot` is put back to, which was called
/// `preferred`, or why there is none.
pub open spec fn is_located(
    sandbox: Sandbox,
    excluded: Set<u8>,
    slot: u8,
    preferred: Seq<char>,
    result: Result<Seq<NameView>, LocateError>,
) -> bool {
    let home = views(sandbox.home@);
    let paths = files_of_slot(files_of(sandbox), slot);
    let owed = slot_of(preferred) == Some(slot) && !excluded.contains(slot);
    match result {
        Ok(path) => owed && exists|i: int| #[trigger]
            fits_best(home, paths, preferred, i) && path == paths[i],
        Err(LocateError::FilenameMismatch) => slot_of(preferred) != Some(slot),
        Err(LocateError::Excluded(which)) => slot_of(preferred) == Some(slot) && excluded.contains(
            slot,
        ) && which == slot,
        Err(LocateError::NotFound) => owed && paths.len() == 0,
        Err(LocateError::Ambiguous) => owed && paths.len() > 0 && forall|i: int|
            !#[trigger] fits_best(home, paths, preferred, i),
    }
}

/// The file that a backup of `slot` replaces, whatever it holds: the one that fits best.
///
/// The game can leave a slot truncated after a forced exit, so the file need not be a valid
/// save.
pub fn locate_save_path_for_restore(
    sandbox: &Sandbox,
    excluded: &BTreeSet<u8>,
    slot: u8,
    preferred_filename: &str,
) -> (result: Result<SandboxPath, LocateError>)
    ensures
        is_located(
            *sandbox,
            excluded@,
            slot,
            preferred_filename@,
            match result {
                Ok(path) => Ok(path@),
                Err(error) => Err(error),
            },
        ),
{
    let named: bool = match slot_for_filename(preferred_filename) {
        Some(found) => found == slot,
        None => false,
    };
    if !named {
        return Err(LocateError::FilenameMismatch);
    }
    if excluded.contains(&slot) {
        return Err(LocateError::Excluded(slot));
    }
    let chosen: Vec<SandboxPath> = walk_restore_candidates(sandbox, slot);
    if chosen.len() == 0 {
        return Err(LocateError::NotFound);
    }
    let ghost home = views(sandbox.home@);
    let ghost paths = views(chosen@);
    let mut best: usize = 0;
    assert(paths[0] == chosen@[0]@);
    let mut best_rank: u8 = restore_path_rank(&sandbox.home, &chosen[0], preferred_filename);
    let mut rivals: bool = false;
    let ghost mut rival: int = 0;
    let mut i: usize = 1;
    while i < chosen.len()
        invariant
            1 <= i <= chosen@.len(),
            best < i,
            home == views(sandbox.home@),
            paths == views(chosen@),
            forall|k: int| 0 <= k < chosen@.len() ==> (#[trigger] chosen@[k])@.len() > 0,
            best_rank == restore_rank(home, paths[best as int], preferred_filename@),
            forall|k: int|
                0 <= k < i ==> best_rank <= restore_rank(
                    home,
                    #[trigger] paths[k],
                    preferred_filename@,
                ),
            rivals ==> 0 <= rival < i && rival != best && restore_rank(
                home,
                paths[rival],
                preferred_filename@,
            ) == best_rank,
            !rivals ==> forall|k: int|
                0 <= k < i && k != best ==> best_rank < restore_rank(
                    home,
                    #[trigger] paths[k],
                    preferred_filename@,
                ),
        decreases chosen@.len() - i,
    {
        assert(paths[i as int] == chosen@[i as int]@);
        let rank: u8 = restore_path_rank(&sandbox.home, &chosen[i], preferred_filename);
        if rank < best_rank {
            best = i;
            best_rank = rank;
            rivals = false;
        } else if rank == best_rank {
            rivals = true;
            proof {
                rival = i as int;
            }
        }
        i += 1;
    }
    if rivals {
        proof {
            assert forall|k: int| !#[trigger] fits_best(home, paths, preferred_filename@, k) by {
                if fits_best(home, paths, preferred_filename@, k) {
                    if k == best {
                        assert(paths[rival] == paths[rival]);
                    } else {
                        assert(paths[best as int] == paths[best as int]);
                    }
                }
            }
        }
        return Err(LocateError::Ambiguous);
    }
    assert(fits_best(home, paths, preferred_filename@, best as int));
    Ok(chosen[best].clone())
}

} // verus!
