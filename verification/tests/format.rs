use isaac_cloud_sync::isaac_crc::isaac_crc32;
use isaac_cloud_sync::isaac_format::{
    canonicalize_save, convert_rep_plus_to_rep, convert_rep_to_rep_plus, is_rep_plus_save,
    validate_canonical, FormatError, SaveEncoding, SaveError, REPENTANCE_MAGIC, TRAILER_SIZE,
};
use isaac_cloud_sync::lz4::{decode_raw_lz4, Lz4Error, MAX_SAVE_SIZE};
use isaac_cloud_sync::save_achievements::unlocked_achievement_ids;

fn write_valid_checksum(bytes: &mut [u8]) {
    let checksum_offset = bytes.len() - 4;
    let checksum = isaac_crc32(&bytes[16..checksum_offset], 0xfedc_ba76);
    bytes[checksum_offset..].copy_from_slice(&checksum.to_le_bytes());
}

fn push_section(bytes: &mut Vec<u8>, kind: u32, size: u32, count: u32) {
    bytes.extend_from_slice(&kind.to_le_bytes());
    bytes.extend_from_slice(&size.to_le_bytes());
    bytes.extend_from_slice(&count.to_le_bytes());
}

fn push_bestiary_and_trailer(bytes: &mut Vec<u8>) {
    push_section(bytes, 11, 0, 4);
    for subtype in [4_u32, 2, 3, 1] {
        bytes.extend_from_slice(&subtype.to_le_bytes());
        bytes.extend_from_slice(&0_u32.to_le_bytes());
    }
    bytes.extend_from_slice(&[0_u8; TRAILER_SIZE]);
    write_valid_checksum(bytes);
}

fn canonical_fixture() -> Vec<u8> {
    let mut bytes = REPENTANCE_MAGIC.to_vec();
    bytes.extend_from_slice(&0x1234_5678_u32.to_le_bytes());
    for section in 1_u32..=10 {
        push_section(&mut bytes, section, 0, 0);
    }
    push_bestiary_and_trailer(&mut bytes);
    bytes
}

fn literal_only_lz4(bytes: &[u8]) -> Vec<u8> {
    let mut encoded = vec![0xf0];
    let mut remaining = bytes.len() - 15;
    while remaining >= 255 {
        encoded.push(255);
        remaining -= 255;
    }
    encoded.push(remaining as u8);
    encoded.extend_from_slice(bytes);
    encoded
}

#[test]
fn accepts_canonical_steam_representation() {
    let fixture = canonical_fixture();
    let result = canonicalize_save(&fixture).unwrap();
    assert_eq!(result.encoding, SaveEncoding::SteamCanonical);
    assert_eq!(result.bytes, fixture);
}

#[test]
fn decodes_ios_raw_lz4_to_canonical_representation() {
    let fixture = canonical_fixture();
    let result = canonicalize_save(&literal_only_lz4(&fixture)).unwrap();
    assert_eq!(result.encoding, SaveEncoding::IosRawLz4);
    assert_eq!(result.bytes, fixture);
}

#[test]
fn rejects_invalid_or_unbounded_lz4() {
    assert!(canonicalize_save(&[0x00, 0x00, 0x00]).is_err());
    assert!(canonicalize_save(&[0xf0]).is_err());
}

#[test]
fn rejects_structurally_valid_save_with_bad_checksum() {
    let mut fixture = canonical_fixture();
    fixture[20] ^= 1;
    assert!(canonicalize_save(&fixture).is_err());
}

#[test]
fn checksum_has_known_values() {
    assert_eq!(isaac_crc32(b"", 0xfedc_ba76), 0xfedc_ba76);
    assert_eq!(isaac_crc32(b"abc", 0xfedc_ba76), 0xfe21_3d13);
    assert_eq!(isaac_crc32(b"123456789", 0), 0xe6de_a8fe);
    assert_eq!(isaac_crc32(&[0; 16], 0xfedc_ba76), 0x1043_e7ce);
}

/// A save of the Repentance generation: 638 achievements and 496 counters.
fn repentance_fixture() -> Vec<u8> {
    let mut bytes = REPENTANCE_MAGIC.to_vec();
    bytes.extend_from_slice(&7_u32.to_le_bytes());
    push_section(&mut bytes, 1, 638, 638);
    bytes.extend((0..638).map(|i| (i % 2) as u8));
    push_section(&mut bytes, 2, 1984, 496);
    bytes.extend((0..1984).map(|i| (i % 251) as u8));
    for section in 3_u32..=10 {
        push_section(&mut bytes, section, 0, 0);
    }
    push_bestiary_and_trailer(&mut bytes);
    bytes
}

#[test]
fn generations_convert_there_and_back() {
    let rep = repentance_fixture();
    assert_eq!(validate_canonical(&rep), Ok(()));
    assert!(!is_rep_plus_save(&rep));
    let plus = convert_rep_to_rep_plus(&rep).unwrap();
    assert!(is_rep_plus_save(&plus));
    assert_eq!(plus.len(), rep.len() + 112);
    assert_eq!(&plus[20..32], &[1, 0, 0, 0, 0x82, 2, 0, 0, 0x82, 2, 0, 0]);
    assert_eq!(&plus[32..670], &rep[32..670]);
    assert_eq!(&plus[670..674], &[0; 4]);
    assert_eq!(&plus[686..2670], &rep[682..2666]);
    assert_eq!(&plus[2670..2778], &[0; 108]);
    assert_eq!(convert_rep_plus_to_rep(&plus).unwrap(), rep);
    // A save of the wanted generation stays as it is.
    assert_eq!(convert_rep_plus_to_rep(&rep).unwrap(), rep);
    assert_eq!(convert_rep_to_rep_plus(&plus).unwrap(), plus);
}

#[test]
fn conversion_reads_the_encoding_of_the_device() {
    let rep = repentance_fixture();
    let plus = convert_rep_to_rep_plus(&rep).unwrap();
    assert_eq!(convert_rep_to_rep_plus(&literal_only_lz4(&rep)).unwrap(), plus);
    assert_eq!(convert_rep_plus_to_rep(&literal_only_lz4(&plus)).unwrap(), rep);
}

#[test]
fn short_saves_do_not_convert() {
    let short = canonical_fixture();
    assert_eq!(convert_rep_to_rep_plus(&short), Err(SaveError::RepentanceTruncated));
    let mut plus = REPENTANCE_MAGIC.to_vec();
    plus.extend_from_slice(&0_u32.to_le_bytes());
    push_section(&mut plus, 1, 642, 642);
    plus.extend_from_slice(&[0; 642]);
    for section in 2_u32..=10 {
        push_section(&mut plus, section, 0, 0);
    }
    push_bestiary_and_trailer(&mut plus);
    assert!(is_rep_plus_save(&plus));
    assert_eq!(convert_rep_plus_to_rep(&plus), Err(SaveError::RepPlusTruncated));
    assert_eq!(
        SaveError::RepPlusTruncated.message(),
        "save data truncated for Rep+ format"
    );
}

#[test]
fn every_defect_of_a_save_is_named() {
    let good = canonical_fixture();
    assert_eq!(validate_canonical(&good[..good.len() - 1]), Err(FormatError::TrailingData));
    assert_eq!(validate_canonical(b"ISAACNGSAVE08R  "), Err(FormatError::HeaderOrSize));
    assert_eq!(validate_canonical(&good[..30]), Err(FormatError::Truncated));

    let mut other = good.clone();
    other[20] = 9;
    assert_eq!(validate_canonical(&other), Err(FormatError::UnexpectedSection(9)));
    assert_eq!(
        FormatError::UnexpectedSection(9).message(),
        "unexpected Repentance save section 9"
    );

    let mut long = good.clone();
    long[24] = 0xff;
    long[27] = 0xff;
    assert_eq!(validate_canonical(&long), Err(FormatError::TruncatedSection));

    let bestiary = 20 + 10 * 12;
    let mut count = good.clone();
    count[bestiary + 8] = 5;
    assert_eq!(validate_canonical(&count), Err(FormatError::BestiaryCount));
    let mut order = good.clone();
    order[bestiary + 12] = 3;
    assert_eq!(validate_canonical(&order), Err(FormatError::BestiarySubsection));
    let mut size = good.clone();
    size[bestiary + 4] = 4;
    assert_eq!(validate_canonical(&size), Err(FormatError::BestiarySize));

    let mut changed = good.clone();
    let last = changed.len() - 1;
    changed[last] ^= 1;
    assert_eq!(validate_canonical(&changed), Err(FormatError::Checksum));
    assert_eq!(
        SaveError::Decoded(FormatError::Checksum).message(),
        "iOS LZ4 stream did not decode to a valid Repentance save: Repentance save checksum mismatch"
    );
}

#[test]
fn canonical_form_is_its_own_canonical_form() {
    let fixture = canonical_fixture();
    let decoded = canonicalize_save(&literal_only_lz4(&fixture)).unwrap();
    let again = canonicalize_save(&decoded.bytes).unwrap();
    assert_eq!(again.encoding, SaveEncoding::SteamCanonical);
    assert_eq!(again.bytes, decoded.bytes);
}

#[test]
fn lz4_copies_overlap() {
    // One literal, then eight bytes copied from one byte back, then a last literal.
    assert_eq!(decode_raw_lz4(&[0x14, b'a', 1, 0, 0x10, b'b']).unwrap(), b"aaaaaaaaab");
    // Fifteen literals or more are announced by further bytes.
    let mut long = vec![0xf0, 1];
    long.extend_from_slice(&[7; 16]);
    assert_eq!(decode_raw_lz4(&long).unwrap(), vec![7; 16]);
}

#[test]
fn lz4_defects_are_errors() {
    assert_eq!(decode_raw_lz4(&[]), Err(Lz4Error::InputSize));
    assert_eq!(decode_raw_lz4(&[0xf0]), Err(Lz4Error::TruncatedLength));
    assert_eq!(decode_raw_lz4(&[0x20, b'a']), Err(Lz4Error::LiteralOutOfBounds));
    assert_eq!(decode_raw_lz4(&[0x14, b'a', 1]), Err(Lz4Error::TruncatedOffset));
    assert_eq!(decode_raw_lz4(&[0x14, b'a', 0, 0]), Err(Lz4Error::InvalidOffset));
    assert_eq!(decode_raw_lz4(&[0x14, b'a', 2, 0]), Err(Lz4Error::InvalidOffset));
    assert_eq!(decode_raw_lz4(&vec![0; MAX_SAVE_SIZE + 1]), Err(Lz4Error::InputSize));
    let mut bomb = vec![0x1f, b'a', 1, 0];
    bomb.extend(vec![255; 131_587]);
    bomb.push(0);
    assert_eq!(decode_raw_lz4(&bomb), Err(Lz4Error::MatchTooLong));
    assert_eq!(Lz4Error::InvalidOffset.message(), "invalid LZ4 match offset");
}

#[test]
fn generations_have_the_same_unlocks() {
    let rep = repentance_fixture();
    let unlocked = unlocked_achievement_ids(&rep).unwrap();
    assert_eq!(unlocked.len(), 319);
    let mut plus = convert_rep_to_rep_plus(&rep).unwrap();
    assert_eq!(unlocked_achievement_ids(&plus).unwrap(), unlocked);
    plus[32 + 640] = 1;
    write_valid_checksum(&mut plus);
    assert_eq!(unlocked_achievement_ids(&plus).unwrap(), unlocked);
    let back = convert_rep_plus_to_rep(&plus).unwrap();
    assert_eq!(unlocked_achievement_ids(&back).unwrap(), unlocked);
}

#[test]
fn valid_saves_are_complete() {
    let save = canonical_fixture();
    assert_eq!(validate_canonical(&save), Ok(()));
    for end in 0..save.len() {
        assert!(validate_canonical(&save[..end]).is_err());
    }
    let mut longer = save.clone();
    for byte in [0, 1, 2, 3, 4, 5, 6, 7, 8] {
        longer.push(byte);
        assert!(validate_canonical(&longer).is_err());
    }
    let mut twice = save.clone();
    twice.extend_from_slice(&save);
    assert!(validate_canonical(&twice).is_err());
}

#[test]
fn streams_without_copies_decode_to_themselves() {
    assert_eq!(decode_raw_lz4(&[0]), Ok(vec![]));
    for length in [1_usize, 2, 14] {
        let stream: Vec<u8> = (0..length).map(|at| at as u8).collect();
        let mut block = vec![(length << 4) as u8];
        block.extend_from_slice(&stream);
        assert_eq!(decode_raw_lz4(&block), Ok(stream));
    }
    for length in [15_usize, 16, 269] {
        let stream: Vec<u8> = (0..length).map(|at| at as u8).collect();
        let mut block = vec![0xf0, (length - 15) as u8];
        block.extend_from_slice(&stream);
        assert_eq!(decode_raw_lz4(&block), Ok(stream));
    }
}

#[test]
fn conversions_settle() {
    let save = repentance_fixture();
    let plus = convert_rep_to_rep_plus(&save).unwrap();
    assert_eq!(plus.len(), save.len() + 112);
    assert_eq!(convert_rep_to_rep_plus(&plus), Ok(plus.clone()));
    assert!(is_rep_plus_save(&plus));
    let rep = convert_rep_plus_to_rep(&plus).unwrap();
    assert_eq!(rep, save);
    assert_eq!(convert_rep_plus_to_rep(&rep), Ok(rep.clone()));
    assert!(!is_rep_plus_save(&rep));
}
