//! What the user is told of a failure that is about something: the message names it.
use vstd::prelude::*;

use crate::achievement_plan::PlanFailure;
use crate::achievements::AchievementFailure;
use crate::archive::DownloadFailure;
use crate::cloud::CloudError;
use crate::engine::EngineError;
use crate::isaac_format::{FormatError, SaveError};
use crate::local::{joined, DiscoveryFailure, LocateError};
use crate::lz4::Lz4Error;
use crate::model::NameView;
use crate::save_achievements::UnlocksError;
use crate::slots::InvalidSlot;
use crate::stable_read::ReadFailure;
use crate::text::{decimal, signed_decimal};

verus! {

/// A failure that has a cause is told by its cause: as it is, or behind what it is the cause of.
pub proof fn causes_are_told(
    format: FormatError,
    lz4: Lz4Error,
    save: SaveError,
    cloud: CloudError,
    reason: Seq<char>,
    slot: u8,
)
    ensures
        SaveError::Format(format).text() == format.text(),
        SaveError::Lz4(lz4).text() == lz4.text(),
        SaveError::Decoded(format).text()
            == "iOS LZ4 stream did not decode to a valid Repentance save: "@ + format.text(),
        UnlocksError::Save(save).text() == save.text(),
        EngineError::Conversion(save).text() == save.text(),
        (EngineError::InvalidRemote { slot, error: save }).text() == "Steam save slot "@ + decimal(
            slot as nat,
        )
            + " is not a valid canonical or iOS LZ4 Repentance save; exact cloud bytes were backed up: "@
            + save.text(),
        ReadFailure::Unavailable(reason).text() == reason,
        ReadFailure::Format(save).text() == save.text(),
        DownloadFailure::Archive(reason).text() == reason,
        DownloadFailure::Cloud(cloud).text() == cloud.text(),
{
}

/// A failure that is about a slot names it.
pub proof fn slots_are_told(slot: u8, failure: ReadFailure, home: Seq<NameView>, path: Seq<NameView>)
    ensures
        InvalidSlot(slot).text() == "invalid slot "@ + decimal(slot as nat),
        EngineError::Excluded(slot).text() == "save slot "@ + decimal(slot as nat)
            + " is excluded from sync"@,
        EngineError::DuplicateSlot(slot).text() == "multiple local save candidates found for slot "@
            + decimal(slot as nat),
        LocateError::Excluded(slot).text() == "slot "@ + decimal(slot as nat)
            + " is excluded from sync"@,
        (DiscoveryFailure::Unreadable { slot, error: failure }).text(home)
            == "validate local save slot "@ + decimal(slot as nat) + ": "@ + failure.text(),
        (DiscoveryFailure::TooLarge { path }).text(home) == "candidate save is unexpectedly large: "@
            + "/"@ + joined(home + path),
{
}

/// A failure that is about numbers or names tells them.
pub proof fn numbers_are_told(
    kind: u32,
    actual: usize,
    expected: usize,
    eresult: i32,
    name: Seq<char>,
)
    ensures
        FormatError::UnexpectedSection(kind).text() == "unexpected Repentance save section "@
            + decimal(kind as nat),
        (CloudError::SizeMismatch { actual, expected }).text() == "downloaded size "@ + decimal(
            actual as nat,
        ) + " does not match expected "@ + decimal(expected as nat),
        (AchievementFailure::RefreshFailed { eresult: Some(eresult) }).text()
            == "Steam user-stats refresh failed with eresult "@ + ("Some("@ + signed_decimal(
            eresult as int,
        ) + ")"@),
        (AchievementFailure::RefreshFailed { eresult: None }).text()
            == "Steam user-stats refresh failed with eresult "@ + "None"@,
        (AchievementFailure::StoreFailed { eresult: Some(eresult) }).text()
            == "Steam achievement store failed with eresult "@ + ("Some("@ + signed_decimal(
            eresult as int,
        ) + ")"@),
        (AchievementFailure::UnexpectedMessage { emsg: kind }).text()
            == "Steam returned unexpected EMsg "@ + decimal(kind as nat)
            + " for achievement store"@,
        (AchievementFailure::FailedValidation { groups: actual }).text() == "Steam rejected "@
            + decimal(actual as nat) + " achievement stat group(s) during validation"@,
        (AchievementFailure::LostUnlocks { lost: actual }).text()
            == "Steam read-back failed to preserve "@ + decimal(actual as nat)
            + " previously unlocked achievement(s)"@,
        (AchievementFailure::NotAllVerified { verified: actual, requested: expected }).text()
            == "Steam verified only "@ + decimal(actual as nat) + " of "@ + decimal(expected as nat)
            + " save-derived achievement unlocks"@,
        (PlanFailure::Unknown { api_name: name }).text()
            == "Steam schema no longer contains achievement "@ + name,
        (PlanFailure::UnsupportedBit { api_name: name, bit: kind }).text() == "Steam achievement "@
            + name + " uses unsupported bit "@ + decimal(kind as nat),
        (PlanFailure::MissingGroup { stat_id: kind }).text()
            == "Steam omitted current value for achievement stat group "@ + decimal(kind as nat)
            + "; refusing unsafe write"@,
{
}

} // verus!
