//! Reading a save that the game may be writing at the same time.
use vstd::prelude::*;

use crate::digest::{identity_for_bytes, identity_of};
use crate::isaac_format::{canonical_form, canonicalize_save, SaveError};
use crate::lz4::MAX_SAVE_SIZE;
use crate::model::{same_identity, FileIdentity, IdentityView};
use crate::text::same_text;

verus! {

/// How often a save is read before its last error counts.
pub const STABLE_READ_ATTEMPTS: usize = 120;

/// How long to wait between two attempts.
pub const STABLE_READ_RETRY_MS: u64 = 100;

/// How long to wait between two observations of a save that is to be staged.
pub const OBSERVATION_INTERVAL_MS: u64 = 500;

/// What the file system says of a file.
#[derive(Debug, Clone, Copy, PartialEq, Eq, Structural)]
pub struct FileStat {
    pub len: u64,
    pub modified_unix_ms: Option<u64>,
}

/// Why a save could not be read.
#[derive(Debug, PartialEq, Eq)]
pub enum ReadError {
    /// The file system did not give the file out, for the reason it gave.
    Unavailable(String),
    /// The file is larger than any save.
    TooLarge,
    /// The file changed while it was read.
    Changed,
    /// The contents are no save.
    Format(SaveError),
}

/// What a `ReadError` says.
pub enum ReadFailure {
    Unavailable(Seq<char>),
    TooLarge,
    Changed,
    Format(SaveError),
}

impl View for ReadError {
    type V = ReadFailure;

    open spec fn view(&self) -> ReadFailure {
        match *self {
            ReadError::Unavailable(reason) => ReadFailure::Unavailable(reason@),
            ReadError::TooLarge => ReadFailure::TooLarge,
            ReadError::Changed => ReadFailure::Changed,
            ReadError::Format(error) => ReadFailure::Format(error),
        }
    }
}

impl Clone for ReadError {
    fn clone(&self) -> (copy: Self)
        ensures
            copy@ == self@,
    {
        match self {
            ReadError::Unavailable(reason) => ReadError::Unavailable(reason.clone()),
            ReadError::TooLarge => ReadError::TooLarge,
            ReadError::Changed => ReadError::Changed,
            ReadError::Format(error) => ReadError::Format(*error),
        }
    }
}

impl ReadFailure {
    /// The message for the user.
    pub open spec fn text(self) -> Seq<char> {
        match self {
            ReadFailure::Unavailable(reason) => reason,
            ReadFailure::TooLarge => "Isaac save exceeds the safety limit"@,
            ReadFailure::Changed => "Isaac save changed while it was being read"@,
            ReadFailure::Format(error) => error.text(),
        }
    }
}

impl ReadError {
    /// The message for the user.
    pub fn message(&self) -> (message: String)
        ensures
            message@ == self@.text(),
    {
        match self {
            ReadError::Unavailable(reason) => reason.clone(),
            ReadError::TooLarge => "Isaac save exceeds the safety limit".to_owned(),
            ReadError::Changed => "Isaac save changed while it was being read".to_owned(),
            ReadError::Format(error) => error.message(),
        }
    }
}

/// Whether a file of this size is read at all.
pub fn admits_size(len: u64) -> (admitted: bool)
    ensures
        admitted == (len <= MAX_SAVE_SIZE),
{
    len <= MAX_SAVE_SIZE as u64
}

/// The identity of a save whose contents were `raw`, where the file system said `before` ahead
/// of reading and `after` behind it: that of the canonical form, with the time of the file.
pub open spec fn read_identity(before: FileStat, raw: Seq<u8>, after: FileStat) -> Result<
    IdentityView,
    ReadFailure,
> {
    if before.len > MAX_SAVE_SIZE {
        Err(ReadFailure::TooLarge)
    } else if before != after || raw.len() != after.len {
        Err(ReadFailure::Changed)
    } else {
        match canonical_form(raw) {
            Ok((bytes, _)) => Ok(
                IdentityView { modified_unix_ms: after.modified_unix_ms, ..identity_of(bytes) },
            ),
            Err(error) => Err(ReadFailure::Format(error)),
        }
    }
}

/// The identity of a save that was read once.
pub fn canonical_identity_for_path_once(before: FileStat, raw: &[u8], after: FileStat) -> (result:
    Result<FileIdentity, ReadError>)
    ensures
        match result {
            Ok(identity) => read_identity(before, raw@, after) == Ok::<IdentityView, ReadFailure>(
                identity@,
            ),
            Err(error) => read_identity(before, raw@, after) == Err::<IdentityView, ReadFailure>(
                error@,
            ),
        },
{
    if !admits_size(before.len) {
        return Err(ReadError::TooLarge);
    }
    let same_time: bool = match (before.modified_unix_ms, after.modified_unix_ms) {
        (Some(left), Some(right)) => left == right,
        (None, None) => true,
        _ => false,
    };
    if before.len != after.len || raw.len() as u64 != after.len || !same_time {
        return Err(ReadError::Changed);
    }
    match canonicalize_save(raw) {
        Ok(canonical) => {
            let mut identity: FileIdentity = identity_for_bytes(&canonical.bytes);
            identity.modified_unix_ms = after.modified_unix_ms;
            Ok(identity)
        },
        Err(error) => Err(ReadError::Format(error)),
    }
}

/// What follows an attempt to read a save.
#[derive(Debug, Clone, Copy, PartialEq, Eq, Structural)]
pub enum ReadStep {
    /// The attempt gave the identity.
    Finished,
    /// Another attempt follows, after a wait.
    RetryAfterMs(u64),
    /// This was the last attempt, and its error counts.
    GiveUp,
}

/// What follows attempt number `attempt`, counted from 0.
pub open spec fn step_after(attempt: int, read: bool) -> ReadStep {
    if read {
        ReadStep::Finished
    } else if attempt + 1 < STABLE_READ_ATTEMPTS {
        ReadStep::RetryAfterMs(STABLE_READ_RETRY_MS)
    } else {
        ReadStep::GiveUp
    }
}

/// What follows attempt number `attempt`, counted from 0, which gave the identity or not.
pub fn after_attempt(attempt: usize, read: bool) -> (step: ReadStep)
    ensures
        step == step_after(attempt as int, read),
{
    if read {
        ReadStep::Finished
    } else if attempt < STABLE_READ_ATTEMPTS - 1 {
        ReadStep::RetryAfterMs(STABLE_READ_RETRY_MS)
    } else {
        ReadStep::GiveUp
    }
}

/// The result of reading a save whose attempts end with `outcomes`: the first identity, or
/// the error of the last attempt.
pub open spec fn retried<T, E>(outcomes: spec_fn(int) -> Result<T, E>, attempt: int) -> Result<T, E>
    decreases STABLE_READ_ATTEMPTS - attempt,
{
    match step_after(attempt, outcomes(attempt) is Ok) {
        ReadStep::RetryAfterMs(_) => if attempt + 1 < STABLE_READ_ATTEMPTS {
            retried(outcomes, attempt + 1)
        } else {
            outcomes(attempt)
        },
        _ => outcomes(attempt),
    }
}

/// A save that one of the attempts can read is read; and where none can, it is the last of
/// them whose error is reported.
pub proof fn retries_reach_the_first_success<T, E>(
    outcomes: spec_fn(int) -> Result<T, E>,
    attempt: int,
    success: int,
)
    requires
        0 <= attempt < STABLE_READ_ATTEMPTS,
    ensures
        attempt <= success < STABLE_READ_ATTEMPTS && outcomes(success) is Ok && (forall|i: int|
            attempt <= i < success ==> #[trigger] outcomes(i) is Err) ==> retried(outcomes, attempt)
            == outcomes(success),
        (forall|i: int| attempt <= i < STABLE_READ_ATTEMPTS ==> #[trigger] outcomes(i) is Err)
            ==> retried(outcomes, attempt) == outcomes(STABLE_READ_ATTEMPTS - 1),
    decreases STABLE_READ_ATTEMPTS - attempt,
{
    if attempt + 1 < STABLE_READ_ATTEMPTS {
        retries_reach_the_first_success(outcomes, attempt + 1, success);
    }
}

/// Whether two observations of a file are of the same bytes at the same time.
pub fn same_observation(left: &FileIdentity, right: &FileIdentity) -> (same: bool)
    ensures
        same == same_identity(left@, right@),
{
    let same_time: bool = match (left.modified_unix_ms, right.modified_unix_ms) {
        (Some(a), Some(b)) => a == b,
        (None, None) => true,
        _ => false,
    };
    same_text(left.sha256.as_str(), right.sha256.as_str()) && left.size == right.size && same_time
}

/// Why a save was not staged.
#[derive(Debug, Clone, Copy, PartialEq, Eq, Structural)]
pub enum SnapshotError {
    StillWritten,
    ChangedWhileStaging,
}

impl SnapshotError {
    /// The message for the user.
    pub open spec fn text(self) -> Seq<char> {
        match self {
            SnapshotError::StillWritten => "save is still being written"@,
            SnapshotError::ChangedWhileStaging => "save changed while staging"@,
        }
    }

    /// The message for the user.
    pub fn message(&self) -> (message: String)
        ensures
            message@ == self.text(),
    {
        match self {
            SnapshotError::StillWritten => "save is still being written".to_owned(),
            SnapshotError::ChangedWhileStaging => "save changed while staging".to_owned(),
        }
    }
}

/// Whether three observations in a row found the same save, so that it may be staged.
pub fn check_settled(first: &FileIdentity, second: &FileIdentity, third: &FileIdentity) -> (result:
    Result<(), SnapshotError>)
    ensures
        result == if same_identity(first@, second@) && same_identity(second@, third@) {
            Ok::<(), SnapshotError>(())
        } else {
            Err(SnapshotError::StillWritten)
        },
{
    if !same_observation(first, second) || !same_observation(second, third) {
        return Err(SnapshotError::StillWritten);
    }
    Ok(())
}

/// Whether the staged copy is the save as it was observed last, and the save has not changed
/// since.
pub open spec fn staged_faithfully(
    third: IdentityView,
    staged: IdentityView,
    after_copy: IdentityView,
) -> bool {
    staged.sha256 == third.sha256 && staged.size == third.size && same_identity(third, after_copy)
}

/// Checks a staged copy against the save.
pub fn check_staged(third: &FileIdentity, staged: &FileIdentity, after_copy: &FileIdentity) -> (result:
    Result<(), SnapshotError>)
    ensures
        result == if staged_faithfully(third@, staged@, after_copy@) {
            Ok::<(), SnapshotError>(())
        } else {
            Err(SnapshotError::ChangedWhileStaging)
        },
{
    if !same_text(staged.sha256.as_str(), third.sha256.as_str()) || staged.size != third.size
        || !same_observation(third, after_copy) {
        return Err(SnapshotError::ChangedWhileStaging);
    }
    Ok(())
}

/// What five looks at a file and its copy come to: the file was quiet over three of them, and the
/// copy is faithful.
pub open spec fn stable_snapshot(
    first: IdentityView,
    second: IdentityView,
    third: IdentityView,
    staged: IdentityView,
    after_copy: IdentityView,
) -> Result<IdentityView, SnapshotError> {
    if !(same_identity(first, second) && same_identity(second, third)) {
        Err(SnapshotError::StillWritten)
    } else if !staged_faithfully(third, staged, after_copy) {
        Err(SnapshotError::ChangedWhileStaging)
    } else {
        Ok(third)
    }
}

/// The identity of a staged save: that of the last of three equal observations, provided that
/// the copy and the save agree with it.
pub fn wait_for_stable_snapshot(
    first: &FileIdentity,
    second: &FileIdentity,
    third: &FileIdentity,
    staged: &FileIdentity,
    after_copy: &FileIdentity,
) -> (result: Result<FileIdentity, SnapshotError>)
    ensures
        match result {
            Ok(identity) => stable_snapshot(first@, second@, third@, staged@, after_copy@) == Ok::<
                IdentityView,
                SnapshotError,
            >(identity@),
            Err(error) => stable_snapshot(first@, second@, third@, staged@, after_copy@) == Err::<
                IdentityView,
                SnapshotError,
            >(error),
        },
{
    match check_settled(first, second, third) {
        Ok(()) => {},
        Err(error) => return Err(error),
    }
    match check_staged(third, staged, after_copy) {
        Ok(()) => {},
        Err(error) => return Err(error),
    }
    Ok(third.clone())
}

} // verus!
