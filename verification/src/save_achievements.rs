//! Achievement unlocks inside a save.
use std::collections::BTreeSet;
use vstd::prelude::*;

use crate::bytes::{le_u32, read_le_u32};
use crate::isaac_format::{canonical_form, canonicalize_save, SaveError};

verus! {

/// Where the first section header of a canonical save stands.
pub const SECTION_TABLE_OFFSET: usize = 0x14;

/// The size of a section header.
pub const SECTION_HEADER_SIZE: usize = 12;

/// The last achievement of Repentance. No achievement beyond this one is read.
pub const MAX_REPENTANCE_ACHIEVEMENT_ID: usize = 637;

/// Why a save's achievements could not be read.
#[derive(Debug, Clone, Copy, PartialEq, Eq, Structural)]
pub enum UnlocksError {
    /// The save has no canonical form.
    Save(SaveError),
    /// The stream ends before the first section header does.
    TooSmall,
    /// A position does not fit in `usize`.
    OffsetOverflow,
    /// The stream ends inside a word.
    Truncated,
    /// The first section is another one.
    OtherSection,
    /// The section's size is not its entry count.
    SizeMismatch,
    /// The section's end does not fit in `usize`.
    EndOverflow,
    /// The section ends behind the stream.
    OutOfBounds,
}

impl UnlocksError {
    /// The text of the error.
    pub open spec fn text(self) -> Seq<char> {
        match self {
            UnlocksError::Save(error) => error.text(),
            UnlocksError::TooSmall => "Isaac save is too small for the achievement section"@,
            UnlocksError::OffsetOverflow => "save offset overflow"@,
            UnlocksError::Truncated => "truncated Isaac section header"@,
            UnlocksError::OtherSection =>
                "Isaac save does not begin with the achievement section"@,
            UnlocksError::SizeMismatch => "Isaac achievement section size/count mismatch"@,
            UnlocksError::EndOverflow => "achievement section end overflow"@,
            UnlocksError::OutOfBounds => "achievement section extends beyond the Isaac save"@,
        }
    }

    /// The text of the error.
    pub fn message(&self) -> (message: String)
        ensures
            message@ == self.text(),
    {
        match self {
            UnlocksError::Save(error) => error.message(),
            UnlocksError::TooSmall => {
                "Isaac save is too small for the achievement section".to_owned()
            },
            UnlocksError::OffsetOverflow => "save offset overflow".to_owned(),
            UnlocksError::Truncated => "truncated Isaac section header".to_owned(),
            UnlocksError::OtherSection => {
                "Isaac save does not begin with the achievement section".to_owned()
            },
            UnlocksError::SizeMismatch => {
                "Isaac achievement section size/count mismatch".to_owned()
            },
            UnlocksError::EndOverflow => "achievement section end overflow".to_owned(),
            UnlocksError::OutOfBounds => {
                "achievement section extends beyond the Isaac save".to_owned()
            },
        }
    }
}

/// Whether achievement `id` is among the entries of the achievement section and unlocked:
/// IDs are one-based, and the byte at the section's start belongs to none.
pub open spec fn is_unlocked(bytes: Seq<u8>, id: u32) -> bool {
    &&& 1 <= id <= MAX_REPENTANCE_ACHIEVEMENT_ID
    &&& id < le_u32(bytes, 28)
    &&& bytes[32 + id] == 1
}

/// The achievements that a canonical save has unlocked.
pub open spec fn unlocks_of(bytes: Seq<u8>) -> Result<Set<u32>, UnlocksError> {
    if bytes.len() < 32 {
        Err(UnlocksError::TooSmall)
    } else if le_u32(bytes, 20) != 1 {
        Err(UnlocksError::OtherSection)
    } else if le_u32(bytes, 24) != le_u32(bytes, 28) {
        Err(UnlocksError::SizeMismatch)
    } else if 32 + le_u32(bytes, 24) > usize::MAX {
        Err(UnlocksError::EndOverflow)
    } else if 32 + le_u32(bytes, 24) > bytes.len() {
        Err(UnlocksError::OutOfBounds)
    } else {
        Ok(Set::new(|id: u32| is_unlocked(bytes, id)))
    }
}

/// Reads the little-endian `u32` at `offset`.
fn read_u32_le(bytes: &[u8], offset: usize) -> (result: Result<u32, UnlocksError>)
    ensures
        result == if offset + 4 > usize::MAX {
            Err::<u32, UnlocksError>(UnlocksError::OffsetOverflow)
        } else if offset + 4 > bytes@.len() {
            Err(UnlocksError::Truncated)
        } else {
            Ok(le_u32(bytes@, offset as int))
        },
{
    match offset.checked_add(4) {
        None => Err(UnlocksError::OffsetOverflow),
        Some(end) => if end > bytes.len() {
            Err(UnlocksError::Truncated)
        } else {
            Ok(read_le_u32(bytes, offset))
        },
    }
}

/// Reads the achievement unlocks of a canonical save.
///
/// The canonical Repentance stream starts its section table at 0x14. Each section begins
/// with three little-endian words, followed by its entries. Achievements are the first
/// section and use one-byte entries.
pub fn unlocked_achievement_ids_from_canonical(bytes: &[u8]) -> (result: Result<
    BTreeSet<u32>,
    UnlocksError,
>)
    ensures
        match result {
            Ok(unlocked) => unlocks_of(bytes@) == Ok::<Set<u32>, UnlocksError>(unlocked@),
            Err(error) => unlocks_of(bytes@) == Err::<Set<u32>, UnlocksError>(error),
        },
{
    let header_end: usize = SECTION_TABLE_OFFSET + SECTION_HEADER_SIZE;
    if bytes.len() < header_end {
        return Err(UnlocksError::TooSmall);
    }
    let section_type: u32 = match read_u32_le(bytes, SECTION_TABLE_OFFSET) {
        Ok(word) => word,
        Err(error) => {
            return Err(error);
        },
    };
    if section_type != 1 {
        return Err(UnlocksError::OtherSection);
    }
    let block_size: u32 = match read_u32_le(bytes, SECTION_TABLE_OFFSET + 4) {
        Ok(word) => word,
        Err(error) => {
            return Err(error);
        },
    };
    let entry_count: u32 = match read_u32_le(bytes, SECTION_TABLE_OFFSET + 8) {
        Ok(word) => word,
        Err(error) => {
            return Err(error);
        },
    };
    if block_size != entry_count {
        return Err(UnlocksError::SizeMismatch);
    }
    let section_end: usize = match header_end.checked_add(block_size as usize) {
        Some(end) => end,
        None => {
            return Err(UnlocksError::EndOverflow);
        },
    };
    if section_end > bytes.len() {
        return Err(UnlocksError::OutOfBounds);
    }
    // Repentance has 637 Steam achievements. Repentance+ can expose a few additional save
    // entries, but the live Steam schema is the final authority, so no identifiers beyond the
    // Repentance set are invented here.
    let last: usize = (entry_count as usize).saturating_sub(1);
    let max_id: usize = if last < MAX_REPENTANCE_ACHIEVEMENT_ID {
        last
    } else {
        MAX_REPENTANCE_ACHIEVEMENT_ID
    };
    let mut unlocked: BTreeSet<u32> = BTreeSet::new();
    let mut id: usize = 1;
    while id <= max_id
        invariant
            1 <= id <= max_id + 1,
            max_id <= MAX_REPENTANCE_ACHIEVEMENT_ID,
            max_id < entry_count || max_id == 0,
            entry_count == le_u32(bytes@, 28),
            32 + entry_count <= bytes@.len(),
            header_end == 32,
            unlocked@ =~= Set::new(|i: u32| i < id && is_unlocked(bytes@, i)),
        decreases max_id + 1 - id,
    {
        if bytes[header_end + id] == 1 {
            unlocked.insert(id as u32);
        }
        id += 1;
    }
    assert(unlocked@ =~= Set::new(|i: u32| is_unlocked(bytes@, i)));
    Ok(unlocked)
}

/// The unlocks of a save of either encoding.
pub open spec fn save_unlocks(raw: Seq<u8>) -> Result<Set<u32>, UnlocksError> {
    match canonical_form(raw) {
        Ok((data, _)) => unlocks_of(data),
        Err(error) => Err(UnlocksError::Save(error)),
    }
}

/// Reads the achievement unlocks of a save of either encoding.
pub fn unlocked_achievement_ids(raw: &[u8]) -> (result: Result<BTreeSet<u32>, UnlocksError>)
    ensures
        match result {
            Ok(unlocked) => save_unlocks(raw@) == Ok::<Set<u32>, UnlocksError>(unlocked@),
            Err(error) => save_unlocks(raw@) == Err::<Set<u32>, UnlocksError>(error),
        },
{
    match canonicalize_save(raw) {
        Ok(canonical) => unlocked_achievement_ids_from_canonical(&canonical.bytes),
        Err(error) => Err(UnlocksError::Save(error)),
    }
}

} // verus!
