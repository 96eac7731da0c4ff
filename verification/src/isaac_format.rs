//! The Repentance save format: its canonical form, and the two generations of it.
use vstd::prelude::*;
use vstd::slice::slice_subrange;

use crate::bytes::{le_bytes, le_u32, push_le_u32, push_range, push_zeros, read_le_u32, to_vec};
use crate::isaac_crc::{isaac_crc, isaac_crc32, ISAAC_CRC_SEED};
use crate::lz4::{decode_raw_lz4, lz4_decoded, Lz4Error, MAX_SAVE_SIZE};
use crate::text::{decimal, to_decimal};

verus! {

/// `ISAACNGSAVE09R  `, the first sixteen bytes of every canonical save.
pub const REPENTANCE_MAGIC: [u8; 16] = [
    0x49, 0x53, 0x41, 0x41, 0x43, 0x4e, 0x47, 0x53, 0x41, 0x56, 0x45, 0x30, 0x39, 0x52, 0x20, 0x20,
];

/// The number of the last section of a save.
pub const SECTION_COUNT: u32 = 11;

/// What follows the last section: four bytes and the checksum.
pub const TRAILER_SIZE: usize = 8;

/// How a save was represented.
#[derive(Debug, Clone, Copy, PartialEq, Eq, Structural)]
pub enum SaveEncoding {
    SteamCanonical,
    IosRawLz4,
}

/// A save in the normal Steam/Windows representation, and how it was found.
#[derive(Debug, PartialEq, Eq)]
pub struct CanonicalSave {
    pub bytes: Vec<u8>,
    pub encoding: SaveEncoding,
}

impl Clone for CanonicalSave {
    fn clone(&self) -> (copy: Self)
        ensures
            copy.bytes@ == self.bytes@,
            copy.encoding == self.encoding,
    {
        CanonicalSave { bytes: to_vec(&self.bytes), encoding: self.encoding }
    }
}

/// Why a byte stream is not a canonical save.
#[derive(Debug, Clone, Copy, PartialEq, Eq, Structural)]
pub enum FormatError {
    /// The stream is too long or does not start with the magic bytes.
    HeaderOrSize,
    /// A position does not fit in `usize`.
    OffsetOverflow,
    /// The stream ends inside a section header.
    Truncated,
    /// The stream ends inside the body of a section.
    TruncatedSection,
    /// A section of another number was expected.
    UnexpectedSection(u32),
    /// The bestiary section does not announce four subsections.
    BestiaryCount,
    /// A bestiary subsection is out of order or its size is no multiple of four.
    BestiarySubsection,
    /// The sizes of the bestiary subsections do not fit in `usize` together.
    BestiaryOverflow,
    /// The bestiary subsections do not add up to the section's size.
    BestiarySize,
    /// The size of a section's body does not fit in `usize`.
    BodyOverflow,
    /// The size of a bestiary subsection's body does not fit in `usize`.
    SectionOverflow,
    /// The sections are not followed by exactly the trailer.
    TrailingData,
    /// The stored checksum is not that of the contents.
    Checksum,
}

/// Why a save could not be brought into the wanted form.
#[derive(Debug, Clone, Copy, PartialEq, Eq, Structural)]
pub enum SaveError {
    /// The stream starts like a canonical save, or was built as one, and is none.
    Format(FormatError),
    /// The stream is no LZ4 block.
    Lz4(Lz4Error),
    /// The LZ4 block decodes to something that is no canonical save.
    Decoded(FormatError),
    /// A Repentance+ save is too short for its first two sections.
    RepPlusTruncated,
    /// A Repentance save is too short for its first two sections.
    RepentanceTruncated,
}

impl FormatError {
    /// The text of the error.
    pub open spec fn text(self) -> Seq<char> {
        match self {
            FormatError::HeaderOrSize => "invalid Repentance save header or size"@,
            FormatError::OffsetOverflow => "save offset overflow"@,
            FormatError::Truncated => "truncated Repentance save"@,
            FormatError::TruncatedSection => "truncated Repentance save section"@,
            FormatError::BestiaryCount => "unexpected Repentance bestiary section count"@,
            FormatError::BestiarySubsection => "invalid Repentance bestiary subsection"@,
            FormatError::BestiaryOverflow => "Repentance bestiary size overflow"@,
            FormatError::BestiarySize => "Repentance bestiary section size mismatch"@,
            FormatError::BodyOverflow => "Repentance section size overflow"@,
            FormatError::SectionOverflow => "save section size overflow"@,
            FormatError::TrailingData => "unexpected data after Repentance save sections"@,
            FormatError::Checksum => "Repentance save checksum mismatch"@,
            FormatError::UnexpectedSection(kind) => "unexpected Repentance save section "@
                + decimal(kind as nat),
        }
    }

    /// The text of the error.
    pub fn message(&self) -> (message: String)
        ensures
            message@ == self.text(),
    {
        match self {
            FormatError::HeaderOrSize => "invalid Repentance save header or size".to_owned(),
            FormatError::OffsetOverflow => "save offset overflow".to_owned(),
            FormatError::Truncated => "truncated Repentance save".to_owned(),
            FormatError::TruncatedSection => "truncated Repentance save section".to_owned(),
            FormatError::BestiaryCount => "unexpected Repentance bestiary section count".to_owned(),
            FormatError::BestiarySubsection => "invalid Repentance bestiary subsection".to_owned(),
            FormatError::BestiaryOverflow => "Repentance bestiary size overflow".to_owned(),
            FormatError::BestiarySize => "Repentance bestiary section size mismatch".to_owned(),
            FormatError::BodyOverflow => "Repentance section size overflow".to_owned(),
            FormatError::SectionOverflow => "save section size overflow".to_owned(),
            FormatError::TrailingData => "unexpected data after Repentance save sections".to_owned(),
            FormatError::Checksum => "Repentance save checksum mismatch".to_owned(),
            FormatError::UnexpectedSection(kind) => {
                let mut message: String = "unexpected Repentance save section ".to_owned();
                message.append(to_decimal(*kind as u64).as_str());
                message
            },
        }
    }
}

impl SaveError {
    /// The text of the error, outermost reason first.
    pub open spec fn text(self) -> Seq<char> {
        match self {
            SaveError::Format(error) => error.text(),
            SaveError::Lz4(error) => error.text(),
            SaveError::Decoded(error) =>
                "iOS LZ4 stream did not decode to a valid Repentance save: "@ + error.text(),
            SaveError::RepPlusTruncated => "save data truncated for Rep+ format"@,
            SaveError::RepentanceTruncated => "save data truncated for Repentance format"@,
        }
    }

    /// The text of the error, outermost reason first.
    pub fn message(&self) -> (message: String)
        ensures
            message@ == self.text(),
    {
        match self {
            SaveError::Format(error) => error.message(),
            SaveError::Lz4(error) => error.message(),
            SaveError::Decoded(error) => {
                let mut message: String =
                    "iOS LZ4 stream did not decode to a valid Repentance save: ".to_owned();
                message.append(error.message().as_str());
                message
            },
            SaveError::RepPlusTruncated => "save data truncated for Rep+ format".to_owned(),
            SaveError::RepentanceTruncated => "save data truncated for Repentance format".to_owned(),
        }
    }
}

/// The `u32` at `cursor` and the position behind it.
pub open spec fn word_at(bytes: Seq<u8>, cursor: int) -> Result<(u32, int), FormatError> {
    if cursor + 4 > usize::MAX {
        Err(FormatError::OffsetOverflow)
    } else if cursor + 4 > bytes.len() {
        Err(FormatError::Truncated)
    } else {
        Ok((le_u32(bytes, cursor), cursor + 4))
    }
}

/// The position `amount` bytes behind `cursor`.
pub open spec fn skipped(bytes: Seq<u8>, cursor: int, amount: int) -> Result<int, FormatError> {
    if amount > usize::MAX {
        Err(FormatError::SectionOverflow)
    } else if cursor + amount > usize::MAX {
        Err(FormatError::OffsetOverflow)
    } else if cursor + amount > bytes.len() {
        Err(FormatError::TruncatedSection)
    } else {
        Ok(cursor + amount)
    }
}

/// The three words that head a section: its number, its size and its entry count.
pub struct Header {
    pub kind: u32,
    pub size: u32,
    pub count: u32,
    /// Where the section's body starts.
    pub body: int,
}

/// The section header at `cursor`.
pub open spec fn header_at(bytes: Seq<u8>, cursor: int) -> Result<Header, FormatError> {
    match word_at(bytes, cursor) {
        Err(error) => Err(error),
        Ok((kind, second)) => match word_at(bytes, second) {
            Err(error) => Err(error),
            Ok((size, third)) => match word_at(bytes, third) {
                Err(error) => Err(error),
                Ok((count, body)) => Ok(Header { kind, size, count, body }),
            },
        },
    }
}

/// The number of the `index`-th bestiary subsection.
pub open spec fn bestiary_kind(index: int) -> u32 {
    if index == 0 {
        4
    } else if index == 1 {
        2
    } else if index == 2 {
        3
    } else {
        1
    }
}

/// Where the bestiary subsections from the `index`-th on end, and the sum of all their
/// sizes, where those before it add up to `total`.
pub open spec fn bestiary_end(bytes: Seq<u8>, cursor: int, index: int, total: int) -> Result<
    (int, int),
    FormatError,
>
    decreases 4 - index,
{
    if index >= 4 {
        Ok((cursor, total))
    } else {
        match word_at(bytes, cursor) {
            Err(error) => Err(error),
            Ok((kind, second)) => match word_at(bytes, second) {
                Err(error) => Err(error),
                Ok((size, body)) => if kind != bestiary_kind(index) || size % 4 != 0 {
                    Err(FormatError::BestiarySubsection)
                } else if total + size > usize::MAX {
                    Err(FormatError::BestiaryOverflow)
                } else {
                    match skipped(bytes, body, size * 2) {
                        Err(error) => Err(error),
                        Ok(next) => bestiary_end(bytes, next, index + 1, total + size),
                    }
                },
            },
        }
    }
}

/// The size of the body of a section other than the bestiary.
pub open spec fn body_size(header: Header) -> int {
    if header.kind == 1 {
        header.size as int
    } else if header.kind == 2 || header.kind == 3 || header.kind == 8 || header.kind == 9 {
        header.count * 4
    } else {
        header.count as int
    }
}

/// Where section number `kind`, whose header stands at `cursor`, ends.
pub open spec fn section_end(bytes: Seq<u8>, cursor: int, kind: u32) -> Result<int, FormatError> {
    match header_at(bytes, cursor) {
        Err(error) => Err(error),
        Ok(header) => if header.kind != kind {
            Err(FormatError::UnexpectedSection(header.kind))
        } else if kind == 11 {
            if header.count != 4 {
                Err(FormatError::BestiaryCount)
            } else {
                match bestiary_end(bytes, header.body, 0, 0) {
                    Err(error) => Err(error),
                    Ok((end, total)) => if total != header.size {
                        Err(FormatError::BestiarySize)
                    } else {
                        Ok(end)
                    },
                }
            }
        } else if body_size(header) > usize::MAX {
            Err(FormatError::BodyOverflow)
        } else {
            skipped(bytes, header.body, body_size(header))
        },
    }
}

/// Where the sections from number `kind` on end.
pub open spec fn sections_end(bytes: Seq<u8>, cursor: int, kind: u32) -> Result<int, FormatError>
    decreases 12 - kind,
{
    if kind > 11 {
        Ok(cursor)
    } else {
        match section_end(bytes, cursor, kind) {
            Err(error) => Err(error),
            Ok(next) => sections_end(bytes, next, (kind + 1) as u32),
        }
    }
}

/// Whether `bytes` starts with the magic bytes of a Repentance save.
pub open spec fn has_magic(bytes: Seq<u8>) -> bool {
    bytes.len() >= 16 && bytes.take(16) == REPENTANCE_MAGIC@
}

/// The checksum that the contents of `bytes` call for.
pub open spec fn checksum_of(bytes: Seq<u8>) -> u32 {
    isaac_crc(bytes.subrange(16, bytes.len() - 4), ISAAC_CRC_SEED)
}

/// Whether `bytes` is a canonical save: the magic bytes, four bytes, the sections 1 to 11
/// in order, and a trailer that ends in the checksum.
pub open spec fn validation(bytes: Seq<u8>) -> Result<(), FormatError> {
    if bytes.len() > MAX_SAVE_SIZE || !has_magic(bytes) {
        Err(FormatError::HeaderOrSize)
    } else {
        match sections_end(bytes, 20, 1) {
            Err(error) => Err(error),
            Ok(end) => if end + TRAILER_SIZE != bytes.len() {
                Err(FormatError::TrailingData)
            } else if le_u32(bytes, bytes.len() - 4) != checksum_of(bytes) {
                Err(FormatError::Checksum)
            } else {
                Ok(())
            },
        }
    }
}

/// Whether `bytes` is a canonical save.
pub open spec fn is_canonical(bytes: Seq<u8>) -> bool {
    validation(bytes) is Ok
}

/// The canonical form of `input` and its encoding, or why it has none.
pub open spec fn canonical_form(input: Seq<u8>) -> Result<(Seq<u8>, SaveEncoding), SaveError> {
    if has_magic(input) {
        match validation(input) {
            Err(error) => Err(SaveError::Format(error)),
            Ok(()) => Ok((input, SaveEncoding::SteamCanonical)),
        }
    } else {
        match lz4_decoded(input) {
            Err(error) => Err(SaveError::Lz4(error)),
            Ok(decoded) => match validation(decoded) {
                Err(error) => Err(SaveError::Decoded(error)),
                Ok(()) => Ok((decoded, SaveEncoding::IosRawLz4)),
            },
        }
    }
}

/// Whether the achievement section of a save announces at least 642 entries, as
/// Repentance+ does.
pub open spec fn is_rep_plus(bytes: Seq<u8>) -> bool {
    bytes.len() >= 32 && le_u32(bytes, 28) >= 642
}

/// `body` followed by its checksum.
pub open spec fn sealed(body: Seq<u8>) -> Seq<u8> {
    body + le_bytes(isaac_crc(body.skip(16), ISAAC_CRC_SEED))
}

/// The three words of a section header.
pub open spec fn header_bytes(kind: u32, size: u32, count: u32) -> Seq<u8> {
    le_bytes(kind) + le_bytes(size) + le_bytes(count)
}

/// A Repentance+ save in the Repentance layout, without its checksum: 638 achievements and
/// 496 counters are kept, and all later sections.
pub open spec fn rep_body(data: Seq<u8>) -> Seq<u8> {
    REPENTANCE_MAGIC@ + data.subrange(16, 20) + header_bytes(1, 638, 638) + data.subrange(32, 670)
        + header_bytes(2, 1984, 496) + data.subrange(686, 2670) + data.subrange(
        2778,
        data.len() - 4,
    )
}

/// A Repentance save in the Repentance+ layout, without its checksum: 642 achievements and
/// 523 counters, those that are new set to zero, and all later sections.
pub open spec fn rep_plus_body(data: Seq<u8>) -> Seq<u8> {
    REPENTANCE_MAGIC@ + data.subrange(16, 20) + header_bytes(1, 642, 642) + data.subrange(32, 670)
        + Seq::new(4, |i: int| 0u8) + header_bytes(2, 2092, 523) + data.subrange(682, 2666)
        + Seq::new(108, |i: int| 0u8) + data.subrange(2666, data.len() - 4)
}

/// What a rebuilt save is worth: itself where it is canonical.
pub open spec fn checked(rebuilt: Seq<u8>) -> Result<Seq<u8>, SaveError> {
    match validation(rebuilt) {
        Err(error) => Err(SaveError::Format(error)),
        Ok(()) => Ok(rebuilt),
    }
}

/// The canonical save `data` in the Repentance layout.
pub open spec fn as_rep(data: Seq<u8>) -> Result<Seq<u8>, SaveError> {
    if !is_rep_plus(data) {
        Ok(data)
    } else if data.len() < 2790 {
        Err(SaveError::RepPlusTruncated)
    } else {
        checked(sealed(rep_body(data)))
    }
}

/// The canonical save `data` in the Repentance+ layout.
pub open spec fn as_rep_plus(data: Seq<u8>) -> Result<Seq<u8>, SaveError> {
    if is_rep_plus(data) {
        Ok(data)
    } else if data.len() < 2678 {
        Err(SaveError::RepentanceTruncated)
    } else {
        checked(sealed(rep_plus_body(data)))
    }
}

/// The canonical form of `input` in the Repentance layout.
pub open spec fn rep_form(input: Seq<u8>) -> Result<Seq<u8>, SaveError> {
    match canonical_form(input) {
        Err(error) => Err(error),
        Ok((data, _)) => as_rep(data),
    }
}

/// The canonical form of `input` in the Repentance+ layout.
pub open spec fn rep_plus_form(input: Seq<u8>) -> Result<Seq<u8>, SaveError> {
    match canonical_form(input) {
        Err(error) => Err(error),
        Ok((data, _)) => as_rep_plus(data),
    }
}

/// Reads the `u32` at `cursor` and moves `cursor` behind it; on an error it stays.
fn read_u32(bytes: &[u8], cursor: &mut usize) -> (result: Result<u32, FormatError>)
    ensures
        match result {
            Ok(value) => word_at(bytes@, *old(cursor) as int) == Ok::<(u32, int), FormatError>(
                (value, *final(cursor) as int),
            ),
            Err(error) => word_at(bytes@, *old(cursor) as int) == Err::<(u32, int), FormatError>(
                error,
            ) && *final(cursor) == *old(cursor),
        },
{
    let end: usize = match cursor.checked_add(4) {
        Some(end) => end,
        None => {
            return Err(FormatError::OffsetOverflow);
        },
    };
    if end > bytes.len() {
        return Err(FormatError::Truncated);
    }
    let value: u32 = read_le_u32(bytes, *cursor);
    *cursor = end;
    Ok(value)
}

/// Moves `cursor` behind a body of `amount` bytes, `None` standing for a size beyond
/// `usize`; on an error it stays.
fn advance(bytes: &[u8], cursor: &mut usize, amount: Option<usize>) -> (result: Result<
    (),
    FormatError,
>)
    ensures
        match (result, amount) {
            (Ok(()), Some(amount)) => skipped(bytes@, *old(cursor) as int, amount as int) == Ok::<
                int,
                FormatError,
            >(*final(cursor) as int),
            (Err(error), Some(amount)) => skipped(bytes@, *old(cursor) as int, amount as int)
                == Err::<int, FormatError>(error) && *final(cursor) == *old(cursor),
            (result, None) => result == Err::<(), FormatError>(FormatError::SectionOverflow)
                && *final(cursor) == *old(cursor),
        },
{
    let amount: usize = match amount {
        Some(amount) => amount,
        None => {
            return Err(FormatError::SectionOverflow);
        },
    };
    let end: usize = match cursor.checked_add(amount) {
        Some(end) => end,
        None => {
            return Err(FormatError::OffsetOverflow);
        },
    };
    if end > bytes.len() {
        return Err(FormatError::TruncatedSection);
    }
    *cursor = end;
    Ok(())
}

/// Whether `bytes` starts with the magic bytes of a Repentance save.
fn starts_with_magic(bytes: &[u8]) -> (found: bool)
    ensures
        found == has_magic(bytes@),
{
    if bytes.len() < 16 {
        return false;
    }
    let mut i: usize = 0;
    while i < 16
        invariant
            i <= 16 <= bytes@.len(),
            forall|j: int| 0 <= j < i ==> bytes@[j] == REPENTANCE_MAGIC@[j],
        decreases 16 - i,
    {
        if bytes[i] != REPENTANCE_MAGIC[i] {
            assert(bytes@.take(16)[i as int] != REPENTANCE_MAGIC@[i as int]);
            return false;
        }
        i += 1;
    }
    assert(bytes@.take(16) =~= REPENTANCE_MAGIC@);
    true
}

/// Moves `cursor` behind the four bestiary subsections and returns the sum of their sizes.
fn read_bestiary(bytes: &[u8], cursor: &mut usize) -> (result: Result<usize, FormatError>)
    ensures
        match result {
            Ok(total) => bestiary_end(bytes@, *old(cursor) as int, 0, 0) == Ok::<
                (int, int),
                FormatError,
            >((*final(cursor) as int, total as int)) && *old(cursor) <= *final(cursor),
            Err(error) => bestiary_end(bytes@, *old(cursor) as int, 0, 0) == Err::<
                (int, int),
                FormatError,
            >(error),
        },
{
    let mut total: usize = 0;
    let mut index: usize = 0;
    while index < 4
        invariant
            index <= 4,
            *old(cursor) <= *cursor,
            bestiary_end(bytes@, *old(cursor) as int, 0, 0) == bestiary_end(
                bytes@,
                *cursor as int,
                index as int,
                total as int,
            ),
        decreases 4 - index,
    {
        let expected: u32 = if index == 0 {
            4
        } else if index == 1 {
            2
        } else if index == 2 {
            3
        } else {
            1
        };
        let kind: u32 = match read_u32(bytes, cursor) {
            Ok(kind) => kind,
            Err(error) => {
                return Err(error);
            },
        };
        let word: u32 = match read_u32(bytes, cursor) {
            Ok(word) => word,
            Err(error) => {
                return Err(error);
            },
        };
        let size: usize = word as usize;
        if kind != expected || word % 4 != 0 {
            return Err(FormatError::BestiarySubsection);
        }
        total = match total.checked_add(size) {
            Some(total) => total,
            None => {
                return Err(FormatError::BestiaryOverflow);
            },
        };
        match advance(bytes, cursor, size.checked_mul(2)) {
            Ok(()) => {},
            Err(error) => {
                return Err(error);
            },
        }
        index += 1;
    }
    Ok(total)
}

/// Checks that `bytes` is a complete canonical save with a correct checksum.
pub fn validate_canonical(bytes: &[u8]) -> (result: Result<(), FormatError>)
    ensures
        result == validation(bytes@),
{
    if bytes.len() > MAX_SAVE_SIZE || !starts_with_magic(bytes) {
        return Err(FormatError::HeaderOrSize);
    }
    // Header (16) plus four bytes that no section covers.
    let mut cursor: usize = 20;
    let mut expected: u32 = 1;
    while expected <= SECTION_COUNT
        invariant
            1 <= expected <= 12,
            bytes@.len() <= MAX_SAVE_SIZE,
            has_magic(bytes@),
            cursor >= 20,
            sections_end(bytes@, 20, 1) == sections_end(bytes@, cursor as int, expected),
        decreases 12 - expected,
    {
        let kind: u32 = match read_u32(bytes, &mut cursor) {
            Ok(kind) => kind,
            Err(error) => {
                return Err(error);
            },
        };
        let size: u32 = match read_u32(bytes, &mut cursor) {
            Ok(size) => size,
            Err(error) => {
                return Err(error);
            },
        };
        let count: u32 = match read_u32(bytes, &mut cursor) {
            Ok(count) => count,
            Err(error) => {
                return Err(error);
            },
        };
        if kind != expected {
            return Err(FormatError::UnexpectedSection(kind));
        }
        if kind == 11 {
            if count != 4 {
                return Err(FormatError::BestiaryCount);
            }
            match read_bestiary(bytes, &mut cursor) {
                Ok(total) => {
                    if total != size as usize {
                        return Err(FormatError::BestiarySize);
                    }
                },
                Err(error) => {
                    return Err(error);
                },
            }
        } else {
            let body: Option<usize> = if kind == 1 {
                Some(size as usize)
            } else if kind == 2 || kind == 3 || kind == 8 || kind == 9 {
                (count as usize).checked_mul(4)
            } else {
                Some(count as usize)
            };
            if body.is_none() {
                return Err(FormatError::BodyOverflow);
            }
            match advance(bytes, &mut cursor, body) {
                Ok(()) => {},
                Err(error) => {
                    return Err(error);
                },
            }
        }
        expected += 1;
    }
    if cursor > bytes.len() || bytes.len() - cursor != TRAILER_SIZE {
        return Err(FormatError::TrailingData);
    }
    let checksum_offset: usize = bytes.len() - 4;
    let stored: u32 = read_le_u32(bytes, checksum_offset);
    let computed: u32 = isaac_crc32(slice_subrange(bytes, 16, checksum_offset), ISAAC_CRC_SEED);
    if stored != computed {
        return Err(FormatError::Checksum);
    }
    Ok(())
}

/// Whether `bytes` has the achievement count of a Repentance+ save.
pub fn is_rep_plus_save(bytes: &[u8]) -> (found: bool)
    ensures
        found == is_rep_plus(bytes@),
{
    bytes.len() >= 32 && read_le_u32(bytes, 28) >= 642
}

/// Returns the normal Steam/Windows representation of a Repentance save.
///
/// Native iOS Isaac writes the complete normal save stream as a raw LZ4 block
/// (without an LZ4 frame header). Windows Isaac expects the decoded stream to
/// begin directly with `ISAACNGSAVE09R  `. Steam downloads are already in that
/// decoded representation, and native iOS Isaac accepts either representation.
pub fn canonicalize_save(input: &[u8]) -> (result: Result<CanonicalSave, SaveError>)
    ensures
        match result {
            Ok(save) => canonical_form(input@) == Ok::<(Seq<u8>, SaveEncoding), SaveError>(
                (save.bytes@, save.encoding),
            ),
            Err(error) => canonical_form(input@) == Err::<(Seq<u8>, SaveEncoding), SaveError>(error),
        },
{
    if starts_with_magic(input) {
        return match validate_canonical(input) {
            Ok(()) => Ok(
                CanonicalSave { bytes: to_vec(input), encoding: SaveEncoding::SteamCanonical },
            ),
            Err(error) => Err(SaveError::Format(error)),
        };
    }
    let decoded: Vec<u8> = match decode_raw_lz4(input) {
        Ok(decoded) => decoded,
        Err(error) => {
            return Err(SaveError::Lz4(error));
        },
    };
    match validate_canonical(&decoded) {
        Ok(()) => Ok(CanonicalSave { bytes: decoded, encoding: SaveEncoding::IosRawLz4 }),
        Err(error) => Err(SaveError::Decoded(error)),
    }
}

/// Appends the magic bytes.
fn push_magic(out: &mut Vec<u8>)
    ensures
        final(out)@ == old(out)@ + REPENTANCE_MAGIC@,
{
    let mut i: usize = 0;
    while i < 16
        invariant
            i <= 16,
            out@ =~= old(out)@ + REPENTANCE_MAGIC@.take(i as int),
        decreases 16 - i,
    {
        out.push(REPENTANCE_MAGIC[i]);
        i += 1;
    }
    assert(REPENTANCE_MAGIC@.take(16) =~= REPENTANCE_MAGIC@);
}

/// Appends a section header.
fn push_header(out: &mut Vec<u8>, kind: u32, size: u32, count: u32)
    ensures
        final(out)@ == old(out)@ + header_bytes(kind, size, count),
{
    push_le_u32(out, kind);
    push_le_u32(out, size);
    push_le_u32(out, count);
    assert(out@ =~= old(out)@ + header_bytes(kind, size, count));
}

/// Appends the checksum to a save that lacks it, and checks the result.
fn seal(body: Vec<u8>) -> (result: Result<Vec<u8>, SaveError>)
    requires
        body@.len() >= 16,
    ensures
        match result {
            Ok(out) => checked(sealed(body@)) == Ok::<Seq<u8>, SaveError>(out@),
            Err(error) => checked(sealed(body@)) == Err::<Seq<u8>, SaveError>(error),
        },
{
    let mut out: Vec<u8> = body;
    let checksum: u32 = isaac_crc32(slice_subrange(&out, 16, out.len()), ISAAC_CRC_SEED);
    assert(body@.subrange(16, body@.len() as int) =~= body@.skip(16));
    push_le_u32(&mut out, checksum);
    match validate_canonical(&out) {
        Ok(()) => Ok(out),
        Err(error) => Err(SaveError::Format(error)),
    }
}

/// Brings a save of either generation and encoding into the canonical Repentance layout.
pub fn convert_rep_plus_to_rep(bytes: &[u8]) -> (result: Result<Vec<u8>, SaveError>)
    ensures
        match result {
            Ok(out) => rep_form(bytes@) == Ok::<Seq<u8>, SaveError>(out@),
            Err(error) => rep_form(bytes@) == Err::<Seq<u8>, SaveError>(error),
        },
{
    let canonical: CanonicalSave = match canonicalize_save(bytes) {
        Ok(canonical) => canonical,
        Err(error) => {
            return Err(error);
        },
    };
    let data: Vec<u8> = canonical.bytes;
    if !is_rep_plus_save(&data) {
        return Ok(data);
    }
    if data.len() < 2778 + 8 + 4 {
        return Err(SaveError::RepPlusTruncated);
    }
    let mut out: Vec<u8> = Vec::with_capacity(14548);
    push_magic(&mut out);
    push_range(&mut out, &data, 16, 20);
    // Sec 1 (638 achievements)
    push_header(&mut out, 1, 638, 638);
    push_range(&mut out, &data, 32, 670);
    // Sec 2 (496 counters)
    push_header(&mut out, 2, 1984, 496);
    push_range(&mut out, &data, 686, 2670);
    // Sec 3..11 and trailer
    push_range(&mut out, &data, 2778, data.len() - 4);
    assert(out@ =~= rep_body(data@));
    seal(out)
}

/// Brings a save of either generation and encoding into the canonical Repentance+ layout.
pub fn convert_rep_to_rep_plus(bytes: &[u8]) -> (result: Result<Vec<u8>, SaveError>)
    ensures
        match result {
            Ok(out) => rep_plus_form(bytes@) == Ok::<Seq<u8>, SaveError>(out@),
            Err(error) => rep_plus_form(bytes@) == Err::<Seq<u8>, SaveError>(error),
        },
{
    let canonical: CanonicalSave = match canonicalize_save(bytes) {
        Ok(canonical) => canonical,
        Err(error) => {
            return Err(error);
        },
    };
    let data: Vec<u8> = canonical.bytes;
    if is_rep_plus_save(&data) {
        return Ok(data);
    }
    if data.len() < 2666 + 8 + 4 {
        return Err(SaveError::RepentanceTruncated);
    }
    let mut out: Vec<u8> = Vec::with_capacity(14660);
    push_magic(&mut out);
    push_range(&mut out, &data, 16, 20);
    // Sec 1 (642 achievements)
    push_header(&mut out, 1, 642, 642);
    push_range(&mut out, &data, 32, 670);
    push_zeros(&mut out, 4);
    // Sec 2 (523 counters)
    push_header(&mut out, 2, 2092, 523);
    push_range(&mut out, &data, 682, 2666);
    push_zeros(&mut out, 108);
    // Sec 3..11 and trailer
    push_range(&mut out, &data, 2666, data.len() - 4);
    assert(out@ =~= rep_plus_body(data@));
    seal(out)
}

} // verus!
