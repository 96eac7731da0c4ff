use isaac_cloud_sync::isaac_format::{FormatError, SaveError};
use isaac_cloud_sync::lz4::Lz4Error;
use isaac_cloud_sync::save_achievements::{
    unlocked_achievement_ids, unlocked_achievement_ids_from_canonical, UnlocksError,
    SECTION_HEADER_SIZE, SECTION_TABLE_OFFSET,
};

fn section(kind: u32, size: u32, count: u32, entries: usize) -> Vec<u8> {
    let mut bytes = vec![0u8; SECTION_TABLE_OFFSET];
    bytes.extend_from_slice(&kind.to_le_bytes());
    bytes.extend_from_slice(&size.to_le_bytes());
    bytes.extend_from_slice(&count.to_le_bytes());
    bytes.extend(vec![0u8; entries]);
    bytes
}

#[test]
fn parses_one_based_achievement_bytes() {
    let mut bytes = vec![0u8; SECTION_TABLE_OFFSET + SECTION_HEADER_SIZE + 8];
    bytes[SECTION_TABLE_OFFSET..SECTION_TABLE_OFFSET + 4].copy_from_slice(&1u32.to_le_bytes());
    bytes[SECTION_TABLE_OFFSET + 4..SECTION_TABLE_OFFSET + 8].copy_from_slice(&8u32.to_le_bytes());
    bytes[SECTION_TABLE_OFFSET + 8..SECTION_TABLE_OFFSET + 12].copy_from_slice(&8u32.to_le_bytes());
    let start = SECTION_TABLE_OFFSET + SECTION_HEADER_SIZE;
    bytes[start + 1] = 1;
    bytes[start + 3] = 1;
    let ids = unlocked_achievement_ids_from_canonical(&bytes).unwrap();
    assert_eq!(ids.into_iter().collect::<Vec<_>>(), vec![1, 3]);
}

#[test]
fn only_ones_within_the_known_range_unlock() {
    let mut bytes = section(1, 700, 700, 700);
    let start = SECTION_TABLE_OFFSET + SECTION_HEADER_SIZE;
    bytes[start] = 1;
    bytes[start + 2] = 2;
    bytes[start + 637] = 1;
    bytes[start + 638] = 1;
    let ids = unlocked_achievement_ids_from_canonical(&bytes).unwrap();
    assert_eq!(ids.into_iter().collect::<Vec<_>>(), vec![637]);
    let mut bytes = section(1, 642, 642, 0);
    bytes.extend(vec![1; 642]);
    assert_eq!(
        unlocked_achievement_ids_from_canonical(&bytes),
        Ok((1..=637).collect())
    );
}

#[test]
fn defects_of_the_section_are_errors() {
    assert_eq!(
        unlocked_achievement_ids_from_canonical(&[0; 31]),
        Err(UnlocksError::TooSmall)
    );
    assert_eq!(
        unlocked_achievement_ids_from_canonical(&section(2, 0, 0, 0)),
        Err(UnlocksError::OtherSection)
    );
    assert_eq!(
        unlocked_achievement_ids_from_canonical(&section(1, 4, 5, 8)),
        Err(UnlocksError::SizeMismatch)
    );
    assert_eq!(
        unlocked_achievement_ids_from_canonical(&section(1, 9, 9, 8)),
        Err(UnlocksError::OutOfBounds)
    );
    assert_eq!(
        UnlocksError::OutOfBounds.message(),
        "achievement section extends beyond the Isaac save"
    );
}

#[test]
fn bytes_that_are_no_save_have_no_unlocks() {
    assert_eq!(
        unlocked_achievement_ids(&[]),
        Err(UnlocksError::Save(SaveError::Lz4(Lz4Error::InputSize)))
    );
    assert_eq!(
        unlocked_achievement_ids(b"ISAACNGSAVE09R  "),
        Err(UnlocksError::Save(SaveError::Format(FormatError::Truncated)))
    );
}
