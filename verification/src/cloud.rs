//! The game's saves in Steam Cloud: which of the listed files they are.
use vstd::prelude::*;

use crate::bytes::to_vec;
use crate::digest::{hex_encode, hex_fits, hex_text};
use crate::model::{FileIdentity, IdentityView, RemoteSave, RemoteView};
use crate::order::views;
use crate::slots::{slot_for_filename, slot_of, slots_are_distinct};
use crate::text::{
    ascii_lower, chars_of, contains, contains_text, decimal, optional_text, text_of,
    to_ascii_lowercase, to_decimal,
};

verus! {

/// Why a save was not exchanged with Steam Cloud.
#[derive(Debug, Clone, Copy, PartialEq, Eq, Structural)]
pub enum CloudError {
    /// Steam listed changes where all files were asked for.
    DeltaOnly,
    /// The file was deleted on Steam.
    ExplicitDelete,
    /// The file is encrypted.
    Encrypted,
    /// Steam named no host to download from.
    DownloadHostMissing,
    /// Steam named no path to download from.
    DownloadPathMissing,
    /// Steam named no size.
    RawSizeMissing,
    /// The file is larger than any save.
    TransferLimit,
    /// The response is larger than any save.
    ResponseLimit,
    /// The downloaded bytes are not those that Steam announced.
    ShaMismatch,
    /// The archive does not hold exactly one entry.
    ArchiveEntryCount,
    /// The entry is a directory.
    ArchiveDirectory,
    /// The entry is larger than announced.
    ArchiveTooLarge,
    /// The save to upload is larger than any save.
    UploadLimit,
    /// Steam named no upload batch.
    BatchIdMissing,
    /// Steam asked for an encrypted upload.
    EncryptionRequested,
    /// Steam named no host to upload to.
    UploadHostMissing,
    /// Steam named no path to upload to.
    UploadPathMissing,
    /// The end of a block does not fit in its type.
    BlockOverflow,
    /// A block does not lie inside the save.
    BlockOutside,
    /// Steam did not take the upload over.
    NotCommitted,
    /// Steam does not list the uploaded bytes.
    NotVerifiable,
    /// The download is of another size than Steam announced.
    SizeMismatch { actual: usize, expected: usize },
}

impl CloudError {
    /// The message for the user.
    pub open spec fn text(self) -> Seq<char> {
        match self {
            CloudError::DeltaOnly => "Steam returned a delta for a full cloud changelist request"@,
            CloudError::ExplicitDelete => "Steam file is explicitly deleted"@,
            CloudError::Encrypted => "encrypted Steam Cloud files are not supported"@,
            CloudError::DownloadHostMissing => "Steam download host missing"@,
            CloudError::DownloadPathMissing => "Steam download path missing"@,
            CloudError::RawSizeMissing => "Steam raw file size missing"@,
            CloudError::TransferLimit => "Steam save exceeds the transfer safety limit"@,
            CloudError::ResponseLimit => "Steam response exceeds the transfer safety limit"@,
            CloudError::ShaMismatch => "downloaded Steam SHA-1 mismatch"@,
            CloudError::ArchiveEntryCount => "Steam compressed file must contain exactly one ZIP entry"@,
            CloudError::ArchiveDirectory => "Steam compressed file contained a directory"@,
            CloudError::ArchiveTooLarge => "Steam compressed save exceeds its declared raw size"@,
            CloudError::UploadLimit => "local save exceeds the transfer safety limit"@,
            CloudError::BatchIdMissing => "Steam upload batch ID missing"@,
            CloudError::EncryptionRequested => "Steam unexpectedly requested file encryption"@,
            CloudError::UploadHostMissing => "Steam upload host missing"@,
            CloudError::UploadPathMissing => "Steam upload path missing"@,
            CloudError::BlockOverflow => "upload block overflow"@,
            CloudError::BlockOutside => "upload block outside staged save"@,
            CloudError::NotCommitted => "Steam did not commit uploaded file"@,
            CloudError::NotVerifiable => "uploaded Steam file was not verifiable in cloud changelist"@,
            CloudError::SizeMismatch { actual, expected } => "downloaded size "@ + decimal(
                actual as nat,
            ) + " does not match expected "@ + decimal(expected as nat),
        }
    }

    /// The message for the user.
    pub fn message(&self) -> (message: String)
        ensures
            message@ == self.text(),
    {
        match self {
            CloudError::DeltaOnly => "Steam returned a delta for a full cloud changelist request".to_owned(),
            CloudError::ExplicitDelete => "Steam file is explicitly deleted".to_owned(),
            CloudError::Encrypted => "encrypted Steam Cloud files are not supported".to_owned(),
            CloudError::DownloadHostMissing => "Steam download host missing".to_owned(),
            CloudError::DownloadPathMissing => "Steam download path missing".to_owned(),
            CloudError::RawSizeMissing => "Steam raw file size missing".to_owned(),
            CloudError::TransferLimit => "Steam save exceeds the transfer safety limit".to_owned(),
            CloudError::ResponseLimit => "Steam response exceeds the transfer safety limit".to_owned(),
            CloudError::ShaMismatch => "downloaded Steam SHA-1 mismatch".to_owned(),
            CloudError::ArchiveEntryCount => "Steam compressed file must contain exactly one ZIP entry".to_owned(),
            CloudError::ArchiveDirectory => "Steam compressed file contained a directory".to_owned(),
            CloudError::ArchiveTooLarge => "Steam compressed save exceeds its declared raw size".to_owned(),
            CloudError::UploadLimit => "local save exceeds the transfer safety limit".to_owned(),
            CloudError::BatchIdMissing => "Steam upload batch ID missing".to_owned(),
            CloudError::EncryptionRequested => "Steam unexpectedly requested file encryption".to_owned(),
            CloudError::UploadHostMissing => "Steam upload host missing".to_owned(),
            CloudError::UploadPathMissing => "Steam upload path missing".to_owned(),
            CloudError::BlockOverflow => "upload block overflow".to_owned(),
            CloudError::BlockOutside => "upload block outside staged save".to_owned(),
            CloudError::NotCommitted => "Steam did not commit uploaded file".to_owned(),
            CloudError::NotVerifiable => "uploaded Steam file was not verifiable in cloud changelist".to_owned(),
            CloudError::SizeMismatch { actual, expected } => {
                let mut message: String = "downloaded size ".to_owned();
                message.append(to_decimal(*actual as u64).as_str());
                message.append(" does not match expected ");
                message.append(to_decimal(*expected as u64).as_str());
                message
            },
        }
    }
}

/// The bytes of an optional list of bytes.
pub open spec fn optional_bytes(bytes: Option<Vec<u8>>) -> Option<Seq<u8>> {
    match bytes {
        Some(bytes) => Some(bytes@),
        None => None,
    }
}

/// Copies an optional list of bytes.
pub fn copy_optional_bytes(bytes: &Option<Vec<u8>>) -> (copy: Option<Vec<u8>>)
    ensures
        optional_bytes(copy) == optional_bytes(*bytes),
{
    match bytes {
        Some(bytes) => Some(to_vec(bytes)),
        None => None,
    }
}

/// A file as Steam lists it.
#[derive(Debug)]
pub struct AppFileInfo {
    pub file_name: Option<String>,
    pub sha_file: Option<Vec<u8>>,
    /// Seconds since the Unix epoch.
    pub time_stamp: Option<u64>,
    /// The size without compression.
    pub raw_file_size: Option<u32>,
    /// 0 for a file that is there.
    pub persist_state: Option<i32>,
    /// The position of the path in front of the name among the listed prefixes.
    pub path_prefix_index: Option<u32>,
}

/// What an `AppFileInfo` holds.
pub struct AppFileView {
    pub file_name: Option<Seq<char>>,
    pub sha_file: Option<Seq<u8>>,
    pub time_stamp: Option<u64>,
    pub raw_file_size: Option<u32>,
    pub persist_state: Option<i32>,
    pub path_prefix_index: Option<u32>,
}

impl View for AppFileInfo {
    type V = AppFileView;

    open spec fn view(&self) -> AppFileView {
        AppFileView {
            file_name: optional_text(self.file_name),
            sha_file: optional_bytes(self.sha_file),
            time_stamp: self.time_stamp,
            raw_file_size: self.raw_file_size,
            persist_state: self.persist_state,
            path_prefix_index: self.path_prefix_index,
        }
    }
}

impl Clone for AppFileInfo {
    fn clone(&self) -> (copy: Self)
        ensures
            copy@ == self@,
    {
        AppFileInfo {
            file_name: self.file_name.clone(),
            sha_file: copy_optional_bytes(&self.sha_file),
            time_stamp: self.time_stamp,
            raw_file_size: self.raw_file_size,
            persist_state: self.persist_state,
            path_prefix_index: self.path_prefix_index,
        }
    }
}

/// A save of the game in Steam Cloud.
#[derive(Debug)]
pub struct CloudFile {
    pub save: RemoteSave,
    /// The file as Steam lists it.
    pub raw: AppFileInfo,
    /// The name by which the file is requested.
    pub request_name: String,
}

/// What a `CloudFile` holds.
pub struct CloudView {
    pub save: RemoteView,
    pub raw: AppFileView,
    pub request_name: Seq<char>,
}

impl View for CloudFile {
    type V = CloudView;

    open spec fn view(&self) -> CloudView {
        CloudView {
            save: self.save@,
            raw: self.raw@,
            request_name: self.request_name@,
        }
    }
}

impl Clone for CloudFile {
    fn clone(&self) -> (copy: Self)
        ensures
            copy@ == self@,
    {
        CloudFile {
            save: self.save.clone(),
            raw: self.raw.clone(),
            request_name: self.request_name.clone(),
        }
    }
}

/// The answer to a request for all files of the application.
#[derive(Debug)]
pub struct Changelist {
    pub is_only_delta: Option<bool>,
    pub files: Vec<AppFileInfo>,
    pub path_prefixes: Vec<String>,
    pub current_change_number: Option<u64>,
}

/// Whether a character separates the components of a cloud path.
pub open spec fn is_separator(c: char) -> bool {
    c == '/' || c == '\\'
}

/// The name by which the file is requested: the prefix, a separator unless it ends with one,
/// and the file name.
pub open spec fn cloud_name(prefix: Seq<char>, filename: Seq<char>) -> Seq<char> {
    if prefix.len() == 0 {
        filename
    } else if is_separator(prefix.last()) {
        prefix + filename
    } else {
        prefix + "/"@ + filename
    }
}

/// The name by which a file is requested.
pub fn join_cloud_name(prefix: &str, filename: &str) -> (name: String)
    ensures
        name@ == cloud_name(prefix@, filename@),
{
    let chars: Vec<char> = chars_of(prefix);
    if chars.len() == 0 {
        return filename.to_owned();
    }
    let last: char = chars[chars.len() - 1];
    let mut name: String = prefix.to_owned();
    if last != '/' && last != '\\' {
        name.append("/");
    }
    name.append(filename);
    name
}

/// What stands behind the last separator.
pub open spec fn base_name(text: Seq<char>) -> Seq<char>
    decreases text.len(),
{
    if text.len() == 0 || is_separator(text.last()) {
        seq![]
    } else {
        base_name(text.drop_last()).push(text.last())
    }
}

/// What stands behind the last separator.
pub fn basename(text: &str) -> (name: String)
    ensures
        name@ == base_name(text@),
{
    let chars: Vec<char> = chars_of(text);
    let mut start: usize = chars.len();
    let ghost whole = chars@;
    assert(whole.take(start as int) =~= whole);
    assert(whole.skip(start as int) =~= Seq::<char>::empty());
    assert(base_name(whole) =~= base_name(whole.take(start as int)) + whole.skip(start as int));
    while start > 0 && chars[start - 1] != '/' && chars[start - 1] != '\\'
        invariant
            start <= chars@.len(),
            whole == chars@,
            base_name(whole) == base_name(whole.take(start as int)) + whole.skip(start as int),
        decreases start,
    {
        proof {
            let upto = whole.take(start as int);
            assert(upto.last() == whole[start - 1]);
            assert(upto.drop_last() =~= whole.take(start - 1));
            assert(base_name(upto) + whole.skip(start as int) =~= base_name(whole.take(start - 1))
                + whole.skip(start - 1));
        }
        start -= 1;
    }
    proof {
        if start > 0 {
            assert(whole.take(start as int).last() == whole[start - 1]);
        }
        assert(base_name(whole) =~= whole.skip(start as int));
        assert(whole.subrange(start as int, whole.len() as int) =~= whole.skip(start as int));
    }
    text_of(&chars, start, chars.len())
}

/// The path in front of the name of a listed file.
pub open spec fn prefix_of(file: AppFileView, prefixes: Seq<Seq<char>>) -> Seq<char> {
    match file.path_prefix_index {
        Some(index) => if index < prefixes.len() {
            prefixes[index as int]
        } else {
            seq![]
        },
        None => seq![],
    }
}

/// The name by which a listed file is requested.
pub open spec fn request_name_of(file: AppFileView, prefixes: Seq<Seq<char>>) -> Seq<char> {
    cloud_name(
        prefix_of(file, prefixes),
        match file.file_name {
            Some(name) => name,
            None => seq![],
        },
    )
}

/// The time of a listed file in milliseconds.
pub open spec fn time_of(file: AppFileView) -> Option<u64> {
    match file.time_stamp {
        Some(seconds) => Some(
            if seconds * 1000 > u64::MAX {
                u64::MAX
            } else {
                (seconds * 1000) as u64
            },
        ),
        None => None,
    }
}

/// What is known of a listed file: its size, its time and its SHA-1.
pub open spec fn listed_identity(file: AppFileView) -> IdentityView {
    IdentityView {
        sha256: seq![],
        size: match file.raw_file_size {
            Some(size) => size as u64,
            None => 0,
        },
        modified_unix_ms: time_of(file),
        steam_sha1: match file.sha_file {
            Some(sha) => Some(hex_text(sha)),
            None => None,
        },
    }
}

/// A listed file as a save of the game, if it is one: it has not been deleted, and its name
/// belongs to a slot.
pub open spec fn listed_save(file: AppFileView, prefixes: Seq<Seq<char>>) -> Option<CloudView> {
    let name = request_name_of(file, prefixes);
    if file.persist_state matches Some(state) && state != 0 {
        None
    } else {
        match slot_of(base_name(name)) {
            Some(slot) => Some(
                CloudView {
                    save: RemoteView {
                        slot,
                        filename: base_name(name),
                        path_prefix: prefix_of(file, prefixes),
                        identity: listed_identity(file),
                    },
                    raw: file,
                    request_name: name,
                },
            ),
            None => None,
        }
    }
}

/// The saves among the first `count` listed files.
pub open spec fn listed_saves(
    files: Seq<AppFileView>,
    prefixes: Seq<Seq<char>>,
    count: int,
) -> Seq<CloudView>
    decreases count,
{
    if count <= 0 {
        seq![]
    } else {
        match listed_save(files[count - 1], prefixes) {
            Some(save) => listed_saves(files, prefixes, count - 1).push(save),
            None => listed_saves(files, prefixes, count - 1),
        }
    }
}

/// The rank of a file's generation: Repentance+ before Repentance before the rest.
pub open spec fn save_priority(filename: Seq<char>) -> u8 {
    if contains_text(ascii_lower(filename), "rep+persistentgamedata"@) {
        3
    } else if contains_text(ascii_lower(filename), "rep_persistentgamedata"@) {
        2
    } else {
        1
    }
}

/// The time of a save, 0 where it is not known.
pub open spec fn time_or_zero(save: CloudView) -> u64 {
    match save.save.identity.modified_unix_ms {
        Some(time) => time,
        None => 0,
    }
}

/// Whether `a` replaces `b` in their slot: its generation ranks higher, or it is of the same
/// generation and newer.
pub open spec fn supersedes(a: CloudView, b: CloudView) -> bool {
    save_priority(a.save.filename) > save_priority(b.save.filename) || (save_priority(
        a.save.filename,
    ) == save_priority(b.save.filename) && time_or_zero(a) > time_or_zero(b))
}

/// The save that stands for `slot`: the first that none of the slot's other saves supersedes.
pub open spec fn save_for_slot(saves: Seq<CloudView>, slot: u8) -> Option<CloudView>
    decreases saves.len(),
{
    if saves.len() == 0 {
        None
    } else {
        let before = save_for_slot(saves.drop_last(), slot);
        let last = saves.last();
        if last.save.slot != slot {
            before
        } else {
            match before {
                Some(best) => if supersedes(last, best) {
                    Some(last)
                } else {
                    Some(best)
                },
                None => Some(last),
            }
        }
    }
}

/// The saves for the slots below `limit`, in ascending order.
pub open spec fn saves_by_slot(saves: Seq<CloudView>, limit: int) -> Seq<CloudView>
    decreases limit,
{
    if limit <= 1 {
        seq![]
    } else {
        match save_for_slot(saves, (limit - 1) as u8) {
            Some(save) => saves_by_slot(saves, limit - 1).push(save),
            None => saves_by_slot(saves, limit - 1),
        }
    }
}

/// The saves of the game that the listed files are: one for each slot, in ascending order.
pub open spec fn chosen_saves(files: Seq<AppFileView>, prefixes: Seq<Seq<char>>) -> Seq<CloudView> {
    saves_by_slot(listed_saves(files, prefixes, files.len() as int), 4)
}

/// The save that stands for a slot is one of the slot's, none of them supersedes it, and it
/// supersedes each of them that was listed before it.
pub proof fn newest_generation_stands_for_slot(saves: Seq<CloudView>, slot: u8)
    ensures
        match save_for_slot(saves, slot) {
            Some(best) => exists|i: int|
                0 <= i < saves.len() && #[trigger] saves[i] == best && best.save.slot == slot && (
                forall|j: int|
                    0 <= j < saves.len() && (#[trigger] saves[j]).save.slot == slot ==> !supersedes(
                        saves[j],
                        best,
                    ) && (j < i ==> supersedes(best, saves[j]))),
            None => forall|j: int|
                0 <= j < saves.len() ==> (#[trigger] saves[j]).save.slot != slot,
        },
    decreases saves.len(),
{
    if saves.len() > 0 {
        let rest = saves.drop_last();
        newest_generation_stands_for_slot(rest, slot);
        assert forall|j: int| 0 <= j < rest.len() implies rest[j] == #[trigger] saves[j] by {}
        let last = saves.last();
        assert(saves[saves.len() - 1] == last);
        match save_for_slot(rest, slot) {
            Some(best) => {
                let i = choose|i: int|
                    0 <= i < rest.len() && rest[i] == best && (forall|j: int|
                        0 <= j < rest.len() && (#[trigger] rest[j]).save.slot == slot
                            ==> !supersedes(rest[j], best) && (j < i ==> supersedes(best, rest[j])));
                assert(saves[i] == best);
                assert forall|j: int| 0 <= j < rest.len() implies (#[trigger] saves[j]) == rest[j] by {}
            },
            None => {
                assert forall|j: int| 0 <= j < rest.len() implies (#[trigger] saves[j]).save.slot
                    != slot by {
                    assert(rest[j].save.slot != slot);
                }
            },
        }
    }
}

/// The rank of a file's generation.
pub fn remote_save_priority(filename: &str) -> (priority: u8)
    ensures
        priority == save_priority(filename@),
{
    let lower: String = to_ascii_lowercase(filename);
    if contains(lower.as_str(), "rep+persistentgamedata") {
        3
    } else if contains(lower.as_str(), "rep_persistentgamedata") {
        2
    } else {
        1
    }
}

/// Whether `a` replaces `b` in their slot.
fn is_superseding(a: &CloudFile, b: &CloudFile) -> (yes: bool)
    ensures
        yes == supersedes(a@, b@),
{
    let new_priority: u8 = remote_save_priority(a.save.filename.as_str());
    let old_priority: u8 = remote_save_priority(b.save.filename.as_str());
    let new_time: u64 = match a.save.identity.modified_unix_ms {
        Some(time) => time,
        None => 0,
    };
    let old_time: u64 = match b.save.identity.modified_unix_ms {
        Some(time) => time,
        None => 0,
    };
    new_priority > old_priority || (new_priority == old_priority && new_time > old_time)
}

/// A listed file as a save of the game, if it is one.
pub fn cloud_save(file: &AppFileInfo, path_prefixes: &Vec<String>) -> (save: Option<CloudFile>)
    requires
        file@.sha_file matches Some(sha) ==> hex_fits(sha.len()),
    ensures
        match save {
            Some(save) => listed_save(file@, views(path_prefixes@)) == Some(save@),
            None => listed_save(file@, views(path_prefixes@)) is None,
        },
{
    if let Some(state) = file.persist_state {
        if state != 0 {
            return None;
        }
    }
    proof {
        reveal_strlit("");
    }
    let prefix: String = match file.path_prefix_index {
        Some(index) => if (index as usize) < path_prefixes.len() {
            path_prefixes[index as usize].clone()
        } else {
            "".to_owned()
        },
        None => "".to_owned(),
    };
    assert(prefix@ =~= prefix_of(file@, views(path_prefixes@)));
    let filename: String = match &file.file_name {
        Some(name) => name.clone(),
        None => "".to_owned(),
    };
    let request_name: String = join_cloud_name(prefix.as_str(), filename.as_str());
    assert(request_name@ =~= request_name_of(file@, views(path_prefixes@)));
    let base: String = basename(request_name.as_str());
    let slot: u8 = match slot_for_filename(base.as_str()) {
        Some(slot) => slot,
        None => return None,
    };
    let steam_sha1: Option<String> = match &file.sha_file {
        Some(sha) => Some(hex_encode(sha)),
        None => None,
    };
    let modified_unix_ms: Option<u64> = match file.time_stamp {
        Some(seconds) => Some(
            if seconds > 0xffff_ffff_ffff_ffff / 1000 {
                0xffff_ffff_ffff_ffff
            } else {
                seconds * 1000
            },
        ),
        None => None,
    };
    let size: u64 = match file.raw_file_size {
        Some(size) => size as u64,
        None => 0,
    };
    let identity: FileIdentity = FileIdentity {
        sha256: "".to_owned(),
        size,
        modified_unix_ms,
        steam_sha1,
    };
    assert(identity@.sha256 =~= listed_identity(file@).sha256);
    assert(identity@ == listed_identity(file@));
    Some(
        CloudFile {
            save: RemoteSave { slot, filename: base, path_prefix: prefix, identity },
            raw: file.clone(),
            request_name,
        },
    )
}

/// The position of the save that stands for `slot`.
fn find_for_slot(saves: &Vec<CloudFile>, slot: u8) -> (best: Option<usize>)
    ensures
        match best {
            Some(at) => at < saves@.len() && save_for_slot(views(saves@), slot) == Some(
                saves@[at as int]@,
            ),
            None => save_for_slot(views(saves@), slot) is None,
        },
{
    let ghost all = views(saves@);
    let mut best: Option<usize> = None;
    let mut i: usize = 0;
    assert(save_for_slot(all.take(0), slot) is None);
    while i < saves.len()
        invariant
            i <= saves@.len(),
            all == views(saves@),
            match best {
                Some(at) => at < i && save_for_slot(all.take(i as int), slot) == Some(
                    saves@[at as int]@,
                ),
                None => save_for_slot(all.take(i as int), slot) is None,
            },
        decreases saves@.len() - i,
    {
        proof {
            let upto = all.take(i + 1);
            assert(upto.drop_last() =~= all.take(i as int));
            assert(upto.last() == saves@[i as int]@);
        }
        if saves[i].save.slot == slot {
            match best {
                Some(at) => {
                    if is_superseding(&saves[i], &saves[at]) {
                        best = Some(i);
                    }
                },
                None => {
                    best = Some(i);
                },
            }
        }
        i += 1;
    }
    assert(all.take(i as int) =~= all);
    best
}

/// Whether the hexadecimal form of every listed SHA-1 fits in memory.
pub open spec fn hashes_fit(files: Seq<AppFileView>) -> bool {
    forall|i: int|
        0 <= i < files.len() ==> ((#[trigger] files[i]).sha_file matches Some(sha) ==> hex_fits(
            sha.len(),
        ))
}

/// The change number and the saves of the game that Steam lists, or why they are not used.
pub open spec fn listing_of(response: Changelist) -> Result<(u64, Seq<CloudView>), CloudError> {
    if response.is_only_delta == Some(true) {
        Err(CloudError::DeltaOnly)
    } else {
        Ok(
            (
                match response.current_change_number {
                    Some(number) => number,
                    None => 0,
                },
                chosen_saves(views(response.files@), views(response.path_prefixes@)),
            ),
        )
    }
}

/// The change number and the saves of the game that Steam lists.
pub fn list_isaac_saves(response: &Changelist) -> (result: Result<
    (u64, Vec<CloudFile>),
    CloudError,
>)
    requires
        hashes_fit(views(response.files@)),
    ensures
        match result {
            Ok((change_number, saves)) => listing_of(*response) == Ok::<
                (u64, Seq<CloudView>),
                CloudError,
            >((change_number, views(saves@))),
            Err(error) => listing_of(*response) == Err::<(u64, Seq<CloudView>), CloudError>(error),
        },
{
    if let Some(only_delta) = response.is_only_delta {
        if only_delta {
            return Err(CloudError::DeltaOnly);
        }
    }
    let ghost files = views(response.files@);
    let ghost prefixes = views(response.path_prefixes@);
    let mut saves: Vec<CloudFile> = Vec::new();
    let mut i: usize = 0;
    assert(views(saves@) =~= Seq::<CloudView>::empty());
    while i < response.files.len()
        invariant
            i <= response.files@.len(),
            files == views(response.files@),
            prefixes == views(response.path_prefixes@),
            hashes_fit(files),
            views(saves@) == listed_saves(files, prefixes, i as int),
        decreases response.files@.len() - i,
    {
        assert(files[i as int] == response.files@[i as int]@);
        let ghost held = saves@;
        if let Some(save) = cloud_save(&response.files[i], &response.path_prefixes) {
            let ghost view = save@;
            saves.push(save);
            assert(views(saves@) =~= views(held).push(view));
        }
        i += 1;
    }
    let ghost all = views(saves@);
    let mut chosen: Vec<CloudFile> = Vec::new();
    assert(views(chosen@) =~= Seq::<CloudView>::empty());
    let mut slot: u8 = 1;
    while slot < 4
        invariant
            1 <= slot <= 4,
            all == views(saves@),
            views(chosen@) == saves_by_slot(all, slot as int),
        decreases 4 - slot,
    {
        let ghost held = chosen@;
        if let Some(at) = find_for_slot(&saves, slot) {
            let save: CloudFile = saves[at].clone();
            chosen.push(save);
            assert(views(chosen@) =~= views(held).push(saves@[at as int]@));
        }
        slot += 1;
    }
    let change_number: u64 = match response.current_change_number {
        Some(number) => number,
        None => 0,
    };
    Ok((change_number, chosen))
}

/// Whether the slots of `saves` ascend, so that none occurs twice.
pub open spec fn slots_ascend(saves: Seq<CloudView>) -> bool {
    forall|i: int, j: int|
        0 <= i < j < saves.len() ==> (#[trigger] saves[i]).save.slot < (
        #[trigger] saves[j]).save.slot
}

proof fn listed_saves_have_slots(files: Seq<AppFileView>, prefixes: Seq<Seq<char>>, count: int)
    ensures
        forall|k: int|
            0 <= k < listed_saves(files, prefixes, count).len() ==> {
                let save = #[trigger] listed_saves(files, prefixes, count)[k];
                &&& slot_of(save.save.filename) == Some(save.save.slot)
                &&& save.save.filename == base_name(save.request_name)
            },
    decreases count,
{
    if count > 0 {
        listed_saves_have_slots(files, prefixes, count - 1);
    }
}

proof fn chosen_by_slot(saves: Seq<CloudView>, limit: int)
    requires
        1 <= limit <= 4,
    ensures
        slots_ascend(saves_by_slot(saves, limit)),
        forall|k: int|
            0 <= k < saves_by_slot(saves, limit).len() ==> {
                let save = #[trigger] saves_by_slot(saves, limit)[k];
                saves.contains(save) && 1 <= save.save.slot < limit
            },
        forall|j: int|
            0 <= j < saves.len() && 1 <= (#[trigger] saves[j]).save.slot < limit ==> exists|k: int|
                0 <= k < saves_by_slot(saves, limit).len() && (#[trigger] saves_by_slot(
                    saves,
                    limit,
                )[k]).save.slot == saves[j].save.slot,
    decreases limit,
{
    if limit > 1 {
        chosen_by_slot(saves, limit - 1);
        let slot = (limit - 1) as u8;
        newest_generation_stands_for_slot(saves, slot);
        let shorter = saves_by_slot(saves, limit - 1);
        let longer = saves_by_slot(saves, limit);
        assert forall|k: int| 0 <= k < shorter.len() implies longer[k] == #[trigger] shorter[k] by {}
        assert forall|j: int|
            0 <= j < saves.len() && 1 <= (#[trigger] saves[j]).save.slot < limit implies exists|
            k: int,
        |
            0 <= k < longer.len() && (#[trigger] longer[k]).save.slot == saves[j].save.slot by {
            if saves[j].save.slot < limit - 1 {
                let k = choose|k: int|
                    0 <= k < shorter.len() && (#[trigger] shorter[k]).save.slot
                        == saves[j].save.slot;
                assert(longer[k].save.slot == saves[j].save.slot);
            } else {
                assert(longer[longer.len() - 1].save.slot == slot);
            }
        }
    }
}

/// Each slot that a listed save belongs to is listed once, by a file whose name belongs to it;
/// no other slot is listed.
pub proof fn one_save_for_each_slot(files: Seq<AppFileView>, prefixes: Seq<Seq<char>>)
    ensures
        slots_ascend(chosen_saves(files, prefixes)),
        forall|k: int|
            0 <= k < chosen_saves(files, prefixes).len() ==> {
                let save = #[trigger] chosen_saves(files, prefixes)[k];
                &&& listed_saves(files, prefixes, files.len() as int).contains(save)
                &&& slot_of(save.save.filename) == Some(save.save.slot)
            },
        forall|j: int|
            0 <= j < listed_saves(files, prefixes, files.len() as int).len() ==> exists|k: int|
                0 <= k < chosen_saves(files, prefixes).len() && (#[trigger] chosen_saves(
                    files,
                    prefixes,
                )[k]).save.slot == (#[trigger] listed_saves(
                    files,
                    prefixes,
                    files.len() as int,
                )[j]).save.slot,
{
    let saves = listed_saves(files, prefixes, files.len() as int);
    listed_saves_have_slots(files, prefixes, files.len() as int);
    chosen_by_slot(saves, 4);
    assert forall|j: int| 0 <= j < saves.len() implies 1 <= (#[trigger] saves[j]).save.slot < 4 by {
        slots_are_distinct(saves[j].save.filename, 1);
    }
}

} // verus!
