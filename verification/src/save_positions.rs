//! What a canonical save is, told by the numbers and the positions of its parts alone.
use vstd::prelude::*;

use crate::bytes::le_u32;
use crate::isaac_crc::isaac_crc;
use crate::isaac_format::{
    bestiary_end, bestiary_kind, canonical_form, header_at, is_canonical, section_end, sections_end,
    skipped, FormatError, Header, SaveEncoding, SaveError, REPENTANCE_MAGIC,
};
use crate::lz4::{lz4_decoded, Lz4Error, MAX_SAVE_SIZE};

verus! {

/// Whether a bestiary subsection of number `kind` and of `size` stands between two positions: its
/// number, its size, which is a multiple of four, and twice as many bytes.
pub open spec fn is_subsection(bytes: Seq<u8>, from: int, to: int, kind: int, size: int) -> bool {
    &&& 0 <= from
    &&& from + 8 <= to <= bytes.len()
    &&& le_u32(bytes, from) == kind
    &&& le_u32(bytes, from + 4) == size
    &&& size % 4 == 0
    &&& to == from + 8 + 2 * size
}

/// Whether the bestiary stands between two positions: its number, its size and the number four,
/// and then the subsections 4, 2, 3 and 1, whose sizes add up to that of the section.
pub open spec fn is_bestiary(bytes: Seq<u8>, from: int, to: int) -> bool {
    &&& 0 <= from
    &&& from + 12 <= to <= bytes.len()
    &&& le_u32(bytes, from) == 11
    &&& le_u32(bytes, from + 8) == 4
    &&& exists|second: int, third: int, fourth: int, a: int, b: int, c: int, d: int|
        #![trigger
            is_subsection(bytes, from + 12, second, 4, a),
            is_subsection(bytes, second, third, 2, b),
            is_subsection(bytes, third, fourth, 3, c),
            is_subsection(bytes, fourth, to, 1, d),
        ]
        is_subsection(bytes, from + 12, second, 4, a) && is_subsection(bytes, second, third, 2, b)
            && is_subsection(bytes, third, fourth, 3, c) && is_subsection(bytes, fourth, to, 1, d)
            && a + b + c + d == le_u32(bytes, from + 4)
}

/// Whether section number `kind`, one of 1 to 10, stands between two positions: its number, its
/// size and its count, and then as many bytes as the size says in section 1, four for each
/// counted entry in the sections 2, 3, 8 and 9, and one for each in the others.
pub open spec fn is_plain_section(bytes: Seq<u8>, from: int, to: int, kind: int) -> bool {
    &&& 0 <= from
    &&& from + 12 <= to <= bytes.len()
    &&& le_u32(bytes, from) == kind
    &&& kind == 1 ==> to == from + 12 + le_u32(bytes, from + 4)
    &&& kind == 2 || kind == 3 || kind == 8 || kind == 9 ==> to == from + 12 + 4 * le_u32(
        bytes,
        from + 8,
    )
    &&& kind == 4 || kind == 5 || kind == 6 || kind == 7 || kind == 10 ==> to == from + 12
        + le_u32(bytes, from + 8)
}

/// Whether section number `k + 1` stands between the `k`-th start and the next.
pub open spec fn section_at(bytes: Seq<u8>, starts: Seq<int>, k: int) -> bool {
    is_plain_section(bytes, starts[k], starts[k + 1], k + 1)
}

/// Whether `starts` are where the eleven sections start, in order, and where the last ends.
pub open spec fn starts_sections(bytes: Seq<u8>, starts: Seq<int>) -> bool {
    &&& starts.len() == 12
    &&& forall|k: int| 0 <= k < 10 ==> #[trigger] section_at(bytes, starts, k)
    &&& is_bestiary(bytes, starts[10], starts[11])
}

/// Whether bytes are laid out as a save: at most 32 MiB, the sixteen bytes `ISAACNGSAVE09R  `,
/// four bytes, the eleven sections, four bytes, and the checksum of all behind the first sixteen.
pub open spec fn is_laid_out_as_save(bytes: Seq<u8>) -> bool {
    &&& bytes.len() <= 32 * 1024 * 1024
    &&& bytes.len() >= 28
    &&& bytes.take(16) == seq![
        0x49u8, 0x53, 0x41, 0x41, 0x43, 0x4e, 0x47, 0x53,
        0x41, 0x56, 0x45, 0x30, 0x39, 0x52, 0x20, 0x20,
    ]
    &&& exists|starts: Seq<int>| #[trigger]
        starts_sections(bytes, starts) && starts[0] == 20 && starts[11] == bytes.len() - 8
    &&& le_u32(bytes, bytes.len() - 4) == isaac_crc(
        bytes.subrange(16, bytes.len() - 4),
        0xfedc_ba76,
    )
}

proof fn part_is_found(bytes: Seq<u8>, cursor: int, index: int, total: int)
    requires
        0 <= cursor,
        0 <= index < 4,
        bestiary_end(bytes, cursor, index, total) is Ok,
    ensures
        ({
            let size = le_u32(bytes, cursor + 4);
            let next = cursor + 8 + 2 * size;
            &&& is_subsection(bytes, cursor, next, bestiary_kind(index) as int, size as int)
            &&& bestiary_end(bytes, next, index + 1, total + size) == bestiary_end(
                bytes,
                cursor,
                index,
                total,
            )
        }),
{
    let size = le_u32(bytes, cursor + 4);
    assert(skipped(bytes, cursor + 8, size * 2) == Ok::<int, FormatError>(cursor + 8 + size * 2));
}

proof fn part_is_followed(
    bytes: Seq<u8>,
    from: int,
    to: int,
    kind: int,
    size: int,
    index: int,
    total: int,
)
    requires
        bytes.len() <= MAX_SAVE_SIZE,
        0 <= index < 4,
        kind == bestiary_kind(index),
        is_subsection(bytes, from, to, kind, size),
        0 <= total,
        total + size <= u32::MAX,
    ensures
        bestiary_end(bytes, from, index, total) == bestiary_end(bytes, to, index + 1, total + size),
{
    assert(skipped(bytes, from + 8, size * 2) == Ok::<int, FormatError>(to));
}

/// The header of the section at a position.
spec fn header_of(bytes: Seq<u8>, from: int) -> Header {
    Header {
        kind: le_u32(bytes, from),
        size: le_u32(bytes, from + 4),
        count: le_u32(bytes, from + 8),
        body: from + 12,
    }
}

proof fn section_is_found(bytes: Seq<u8>, cursor: int, kind: u32)
    requires
        0 <= cursor,
        1 <= kind <= 11,
    ensures
        section_end(bytes, cursor, kind) matches Ok(end) ==> if kind == 11 {
            is_bestiary(bytes, cursor, end)
        } else {
            is_plain_section(bytes, cursor, end, kind as int)
        },
{
    if section_end(bytes, cursor, kind) is Ok {
        let header = header_of(bytes, cursor);
        assert(header_at(bytes, cursor) == Ok::<Header, FormatError>(header));
        if kind == 11 {
            let first = header.body;
            let a = le_u32(bytes, first + 4);
            part_is_found(bytes, first, 0, 0);
            let second = first + 8 + 2 * a;
            let b = le_u32(bytes, second + 4);
            part_is_found(bytes, second, 1, a as int);
            let third = second + 8 + 2 * b;
            let c = le_u32(bytes, third + 4);
            part_is_found(bytes, third, 2, a + b);
            let fourth = third + 8 + 2 * c;
            let d = le_u32(bytes, fourth + 4);
            part_is_found(bytes, fourth, 3, a + b + c);
            let end = fourth + 8 + 2 * d;
            assert(bestiary_end(bytes, end, 4, a + b + c + d) == Ok::<(int, int), FormatError>(
                (end, a + b + c + d),
            ));
            assert(is_subsection(bytes, first, second, 4, a as int));
            assert(is_subsection(bytes, second, third, 2, b as int));
            assert(is_subsection(bytes, third, fourth, 3, c as int));
            assert(is_subsection(bytes, fourth, end, 1, d as int));
        }
    }
}

proof fn section_is_followed(bytes: Seq<u8>, from: int, to: int, kind: u32)
    requires
        bytes.len() <= MAX_SAVE_SIZE,
        1 <= kind <= 11,
        if kind == 11 {
            is_bestiary(bytes, from, to)
        } else {
            is_plain_section(bytes, from, to, kind as int)
        },
    ensures
        section_end(bytes, from, kind) == Ok::<int, FormatError>(to),
{
    let header = header_of(bytes, from);
    assert(header_at(bytes, from) == Ok::<Header, FormatError>(header));
    if kind == 11 {
        let (second, third, fourth, a, b, c, d) = choose|
            second: int,
            third: int,
            fourth: int,
            a: int,
            b: int,
            c: int,
            d: int,
        |
            #![trigger
                is_subsection(bytes, from + 12, second, 4, a),
                is_subsection(bytes, second, third, 2, b),
                is_subsection(bytes, third, fourth, 3, c),
                is_subsection(bytes, fourth, to, 1, d),
            ]
            is_subsection(bytes, from + 12, second, 4, a) && is_subsection(
                bytes,
                second,
                third,
                2,
                b,
            ) && is_subsection(bytes, third, fourth, 3, c) && is_subsection(
                bytes,
                fourth,
                to,
                1,
                d,
            ) && a + b + c + d == le_u32(bytes, from + 4);
        part_is_followed(bytes, from + 12, second, 4, a, 0, 0);
        part_is_followed(bytes, second, third, 2, b, 1, a);
        part_is_followed(bytes, third, fourth, 3, c, 2, a + b);
        part_is_followed(bytes, fourth, to, 1, d, 3, a + b + c);
        assert(bestiary_end(bytes, to, 4, a + b + c + d) == Ok::<(int, int), FormatError>(
            (to, a + b + c + d),
        ));
    }
}

/// Where the sections that are found one behind the other start, and where the last ends.
spec fn found_starts(bytes: Seq<u8>, cursor: int, kind: u32) -> Seq<int>
    decreases 12 - kind,
{
    if kind > 11 {
        seq![cursor]
    } else {
        seq![cursor] + found_starts(
            bytes,
            section_end(bytes, cursor, kind)->Ok_0,
            (kind + 1) as u32,
        )
    }
}

/// Whether the section behind the `k`-th start, counted from number `kind`, reaches to the next.
spec fn reaches_next(bytes: Seq<u8>, starts: Seq<int>, kind: int, k: int) -> bool {
    if kind + k == 11 {
        is_bestiary(bytes, starts[k], starts[k + 1])
    } else {
        is_plain_section(bytes, starts[k], starts[k + 1], kind + k)
    }
}

proof fn starts_are_found(bytes: Seq<u8>, cursor: int, kind: u32)
    requires
        0 <= cursor,
        1 <= kind <= 12,
        sections_end(bytes, cursor, kind) is Ok,
    ensures
        ({
            let starts = found_starts(bytes, cursor, kind);
            &&& starts.len() == 13 - kind
            &&& forall|k: int|
                0 <= k < 12 - kind ==> #[trigger] reaches_next(bytes, starts, kind as int, k)
            &&& starts[0] == cursor
            &&& starts[12 - kind] == sections_end(bytes, cursor, kind)->Ok_0
        }),
    decreases 12 - kind,
{
    if kind <= 11 {
        let next = section_end(bytes, cursor, kind)->Ok_0;
        section_is_found(bytes, cursor, kind);
        starts_are_found(bytes, next, (kind + 1) as u32);
        let rest = found_starts(bytes, next, (kind + 1) as u32);
        let starts = found_starts(bytes, cursor, kind);
        assert forall|k: int| 0 <= k < 12 - kind implies #[trigger] reaches_next(
            bytes,
            starts,
            kind as int,
            k,
        ) by {
            if k > 0 {
                assert(reaches_next(bytes, rest, kind + 1, k - 1));
            }
        }
    }
}

proof fn starts_are_followed(bytes: Seq<u8>, starts: Seq<int>, kind: u32)
    requires
        bytes.len() <= MAX_SAVE_SIZE,
        1 <= kind <= 12,
        starts.len() == 13 - kind,
        forall|k: int|
            0 <= k < 12 - kind ==> #[trigger] reaches_next(bytes, starts, kind as int, k),
    ensures
        sections_end(bytes, starts[0], kind) == Ok::<int, FormatError>(starts[12 - kind]),
    decreases 12 - kind,
{
    if kind <= 11 {
        let rest = starts.drop_first();
        assert(reaches_next(bytes, starts, kind as int, 0));
        section_is_followed(bytes, starts[0], starts[1], kind);
        assert forall|k: int| 0 <= k < 11 - kind implies #[trigger] reaches_next(
            bytes,
            rest,
            kind + 1,
            k,
        ) by {
            assert(reaches_next(bytes, starts, kind as int, k + 1));
        }
        starts_are_followed(bytes, rest, (kind + 1) as u32);
    }
}

/// A canonical save is exactly what is laid out as one.
pub proof fn canonical_saves_are_laid_out_by_position(bytes: Seq<u8>)
    ensures
        is_canonical(bytes) <==> is_laid_out_as_save(bytes),
{
    let magic = seq![
        0x49u8, 0x53, 0x41, 0x41, 0x43, 0x4e, 0x47, 0x53,
        0x41, 0x56, 0x45, 0x30, 0x39, 0x52, 0x20, 0x20,
    ];
    assert(REPENTANCE_MAGIC@ =~= magic);
    if is_canonical(bytes) {
        starts_are_found(bytes, 20, 1);
        let starts = found_starts(bytes, 20, 1);
        assert forall|k: int| 0 <= k < 10 implies #[trigger] section_at(bytes, starts, k) by {
            assert(reaches_next(bytes, starts, 1, k));
        }
        assert(reaches_next(bytes, starts, 1, 10));
        assert(starts_sections(bytes, starts));
    }
    if is_laid_out_as_save(bytes) {
        let starts = choose|starts: Seq<int>| #[trigger]
            starts_sections(bytes, starts) && starts[0] == 20 && starts[11] == bytes.len() - 8;
        assert forall|k: int| 0 <= k < 11 implies #[trigger] reaches_next(bytes, starts, 1, k) by {
            if k < 10 {
                assert(section_at(bytes, starts, k));
            }
        }
        starts_are_followed(bytes, starts, 1);
    }
}

/// What is accepted as a save, and what its canonical form is: a stream with the layout of a save
/// is its own, and another one, unless it starts as a save does, has the stream that it decodes
/// to, where that has the layout of a save. Nothing else is accepted.
pub proof fn saves_are_recognized_by_their_layout(input: Seq<u8>)
    ensures
        is_laid_out_as_save(input) <==> canonical_form(input) == Ok::<
            (Seq<u8>, SaveEncoding),
            SaveError,
        >((input, SaveEncoding::SteamCanonical)),
        forall|data: Seq<u8>|
            canonical_form(input) == Ok::<(Seq<u8>, SaveEncoding), SaveError>(
                (data, SaveEncoding::IosRawLz4),
            ) <==> !starts_as_save(input) && lz4_decoded(input) == Ok::<Seq<u8>, Lz4Error>(data)
                && #[trigger] is_laid_out_as_save(data),
        canonical_form(input) matches Ok((data, encoding)) ==> encoding
            == SaveEncoding::IosRawLz4 || data == input,
{
    let magic = seq![
        0x49u8, 0x53, 0x41, 0x41, 0x43, 0x4e, 0x47, 0x53,
        0x41, 0x56, 0x45, 0x30, 0x39, 0x52, 0x20, 0x20,
    ];
    assert(REPENTANCE_MAGIC@ =~= magic);
    canonical_saves_are_laid_out_by_position(input);
    if let Ok(decoded) = lz4_decoded(input) {
        canonical_saves_are_laid_out_by_position(decoded);
    }
}

/// Whether a stream starts with the sixteen bytes `ISAACNGSAVE09R  `.
pub open spec fn starts_as_save(input: Seq<u8>) -> bool {
    input.len() >= 16 && input.take(16) == seq![
        0x49u8, 0x53, 0x41, 0x41, 0x43, 0x4e, 0x47, 0x53,
        0x41, 0x56, 0x45, 0x30, 0x39, 0x52, 0x20, 0x20,
    ]
}

} // verus!
