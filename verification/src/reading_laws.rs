//! What is read of a save, told by its bytes and by the files.
use vstd::prelude::*;

use crate::archive::{
    archive_entry_count, archive_first_contents, archive_first_entry, unpacked, DownloadFailure,
};
use crate::bytes::le_u32;
use crate::clock::{millis_after, time_millis, Elapsed};
use crate::digest::{file_identity, hex_text, identity_of, sha1_of, sha256_of};
use crate::isaac_format::{canonical_form, SaveEncoding, SaveError};
use crate::isaac_format_laws::{canonical_form_is_stable, standard_prefix};
use crate::model::{same_identity, IdentityView};
use crate::save_achievements::{save_unlocks, UnlocksError};
use crate::stable_read::{
    read_identity, stable_snapshot, staged_faithfully, step_after, FileStat, ReadFailure, ReadStep,
    SnapshotError,
};

verus! {

/// The unlocks of a save are the numbers from 1 to 637 whose byte in the achievement section is 1.
/// The section tells its size and its count, and a save in which those differ is refused.
pub proof fn unlocks_are_the_set_bytes(raw: Seq<u8>, id: u32)
    ensures
        match canonical_form(raw) {
            Ok((data, _)) => {
                &&& le_u32(data, 24) == le_u32(data, 28) ==> (save_unlocks(raw) matches Ok(unlocked)
                    && (unlocked.contains(id) <==> 1 <= id <= 637 && id < le_u32(data, 28) && data[32
                    + id] == 1))
                &&& le_u32(data, 24) != le_u32(data, 28) ==> save_unlocks(raw) == Err::<
                    Set<u32>,
                    UnlocksError,
                >(UnlocksError::SizeMismatch)
            },
            Err(error) => save_unlocks(raw) == Err::<Set<u32>, UnlocksError>(
                UnlocksError::Save(error),
            ),
        },
{
    canonical_form_is_stable(raw);
    if let Ok((data, _)) = canonical_form(raw) {
        standard_prefix(data);
    }
}

/// Bytes are known by their SHA-256, their SHA-1 and their size, and a file by the first two and by
/// the size and the time that it reports.
pub proof fn bytes_are_known_by_their_hashes(bytes: Seq<u8>, size: u64, time: Option<u64>)
    ensures
        ({
            let file = file_identity(bytes, size, time);
            file.sha256 == hex_text(sha256_of(bytes)) && file.steam_sha1 == Some(
                hex_text(sha1_of(bytes)),
            ) && file.size == size && file.modified_unix_ms == time
        }),
        identity_of(bytes).sha256 == hex_text(sha256_of(bytes)),
        identity_of(bytes).steam_sha1 == Some(hex_text(sha1_of(bytes))),
        identity_of(bytes).size == bytes.len() as u64,
        identity_of(bytes).modified_unix_ms is None,
{
}

/// Bytes in hexadecimal: two lower-case digits for each, the upper half first.
pub proof fn hexadecimal_has_two_digits_for_a_byte(bytes: Seq<u8>, at: int)
    requires
        0 <= at < bytes.len(),
    ensures
        ({
            let digits = "0123456789abcdef"@;
            &&& hex_text(bytes).len() == 2 * bytes.len()
            &&& hex_text(bytes)[2 * at] == digits[bytes[at] as int / 16]
            &&& hex_text(bytes)[2 * at + 1] == digits[bytes[at] as int % 16]
        }),
{
    reveal_strlit("0123456789abcdef");
}

/// A file counts as a save exactly where it is at most 32 MiB, was the same before and behind the
/// read, was read in full, and is one. It is then known by its canonical form and its time.
pub proof fn reads_count_where_the_file_was_quiet(
    before: FileStat,
    raw: Seq<u8>,
    after: FileStat,
)
    ensures
        match read_identity(before, raw, after) {
            Ok(identity) => {
                &&& before.len <= 33_554_432 && before.len == after.len && raw.len() == after.len
                &&& before.modified_unix_ms == after.modified_unix_ms
                &&& identity.modified_unix_ms == after.modified_unix_ms
                &&& canonical_form(raw) matches Ok((data, _)) && identity.sha256 == hex_text(
                    sha256_of(data),
                ) && identity.size == data.len() as u64 && identity.steam_sha1 == Some(
                    hex_text(sha1_of(data)),
                )
            },
            Err(ReadFailure::TooLarge) => before.len > 33_554_432,
            Err(ReadFailure::Changed) => before.len <= 33_554_432 && (before.len != after.len
                || before.modified_unix_ms != after.modified_unix_ms || raw.len() != after.len),
            Err(ReadFailure::Format(error)) => before.len <= 33_554_432 && canonical_form(raw)
                == Err::<(Seq<u8>, SaveEncoding), SaveError>(error),
            Err(_) => false,
        },
{
}

/// A read that failed is tried again after 100 milliseconds, 120 times in all.
pub proof fn reads_are_tried_for_twelve_seconds(attempt: int, read: bool)
    ensures
        read ==> step_after(attempt, read) is Finished,
        !read && attempt < 119 ==> step_after(attempt, read) == ReadStep::RetryAfterMs(100),
        !read && attempt >= 119 ==> step_after(attempt, read) is GiveUp,
{
}

/// Two looks at a file saw the same where its contents, its size and its time are the same; a copy
/// is faithful where it has the contents and the size, and the file did not change meanwhile.
pub proof fn looks_are_compared(
    first: IdentityView,
    second: IdentityView,
    copy: IdentityView,
)
    ensures
        same_identity(first, second) <==> first.sha256 == second.sha256 && first.size == second.size
            && first.modified_unix_ms == second.modified_unix_ms,
        staged_faithfully(first, copy, second) <==> copy.sha256 == first.sha256 && copy.size
            == first.size && first.sha256 == second.sha256 && first.size == second.size
            && first.modified_unix_ms == second.modified_unix_ms,
{
}

/// The time in milliseconds: a thousand for each second and one for each million of nanoseconds,
/// and 0 or none before the epoch.
pub proof fn times_are_in_milliseconds(passed: Elapsed)
    ensures
        passed.secs * 1000 + passed.nanos / 1_000_000 <= u64::MAX ==> millis_after(Some(passed))
            == passed.secs * 1000 + passed.nanos / 1_000_000,
        millis_after(None) == 0,
        time_millis(Some(passed)) == Some(millis_after(Some(passed))),
        time_millis(None) is None,
{
}

/// An archive is unpacked exactly where it can be read, holds one entry, which is a file of at
/// most the given size, and unpacks to no more than that.
pub proof fn archives_hold_one_file(bytes: Seq<u8>, max_output: usize, contents: Seq<u8>)
    requires
        max_output < usize::MAX,
    ensures
        unpacked(bytes, max_output) == Ok::<Seq<u8>, DownloadFailure>(contents) <==> {
            &&& archive_entry_count(bytes) == Ok::<usize, Seq<char>>(1)
            &&& archive_first_entry(bytes) matches Ok((is_dir, size)) && !is_dir && size
                <= max_output
            &&& archive_first_contents(bytes, (max_output + 1) as u64) == Ok::<
                Seq<u8>,
                Seq<char>,
            >(contents)
            &&& contents.len() <= max_output
        },
{
}

/// A save is staged exactly where three looks at the file saw the same, its copy has the same
/// contents and size, and the file was still the same behind the copy. It is then known by the
/// third look.
pub proof fn quiet_saves_are_staged(
    first: IdentityView,
    second: IdentityView,
    third: IdentityView,
    staged: IdentityView,
    after: IdentityView,
)
    ensures
        ({
            let quiet = first.sha256 == second.sha256 && second.sha256 == third.sha256 && first.size
                == second.size && second.size == third.size && first.modified_unix_ms
                == second.modified_unix_ms && second.modified_unix_ms == third.modified_unix_ms;
            let faithful = staged.sha256 == third.sha256 && staged.size == third.size
                && after.sha256 == third.sha256 && after.size == third.size
                && after.modified_unix_ms == third.modified_unix_ms;
            let snapshot = stable_snapshot(first, second, third, staged, after);
            &&& quiet && faithful ==> snapshot == Ok::<IdentityView, SnapshotError>(third)
            &&& !quiet ==> snapshot == Err::<IdentityView, SnapshotError>(
                SnapshotError::StillWritten,
            )
            &&& quiet && !faithful ==> snapshot == Err::<IdentityView, SnapshotError>(
                SnapshotError::ChangedWhileStaging,
            )
        }),
{
}

} // verus!
