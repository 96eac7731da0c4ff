//! What a canonical save looks like, told by where its parts stand.
use vstd::prelude::*;

use crate::bytes::le_u32;
use crate::isaac_format::{
    bestiary_end, bestiary_kind, body_size, checksum_of, has_magic, header_at, is_canonical,
    section_end, sections_end, skipped, FormatError, Header,
};
use crate::lz4::MAX_SAVE_SIZE;

verus! {

/// Whether a bestiary subsection of number `kind` stands between two positions: its number, its
/// size, which is a multiple of four, and twice as many bytes.
pub open spec fn is_subsection(bytes: Seq<u8>, from: int, to: int, kind: u32) -> bool {
    &&& 0 <= from
    &&& from + 8 <= to <= bytes.len()
    &&& le_u32(bytes, from) == kind
    &&& le_u32(bytes, from + 4) % 4 == 0
    &&& to == from + 8 + le_u32(bytes, from + 4) * 2
}

/// Whether the bestiary subsection behind the `t`-th mark, counted from the `index`-th of all,
/// reaches to the next mark.
pub open spec fn subsection_at(bytes: Seq<u8>, marks: Seq<int>, index: int, t: int) -> bool {
    is_subsection(bytes, marks[t], marks[t + 1], bestiary_kind(index + t))
}

/// Whether `marks` are where the bestiary subsections from the `index`-th on start and end.
pub open spec fn marks_subsections(bytes: Seq<u8>, marks: Seq<int>, index: int) -> bool {
    &&& marks.len() == 5 - index
    &&& forall|t: int| 0 <= t < 4 - index ==> #[trigger] subsection_at(bytes, marks, index, t)
}

/// The sizes of the bestiary subsections between the marks together.
pub open spec fn sizes_between(bytes: Seq<u8>, marks: Seq<int>) -> int
    decreases marks.len(),
{
    if marks.len() <= 1 {
        0
    } else {
        le_u32(bytes, marks[0] + 4) + sizes_between(bytes, marks.drop_first())
    }
}

/// Whether the four subsections of the bestiary, of the numbers 4, 2, 3 and 1, fill the space
/// between two positions and have `size` together.
pub open spec fn is_bestiary_body(bytes: Seq<u8>, from: int, to: int, size: u32) -> bool {
    exists|marks: Seq<int>| #[trigger]
        marks_subsections(bytes, marks, 0) && marks[0] == from && marks[4] == to && sizes_between(
            bytes,
            marks,
        ) == size
}

/// The header of the section at a position.
pub open spec fn header_of(bytes: Seq<u8>, from: int) -> Header {
    Header {
        kind: le_u32(bytes, from),
        size: le_u32(bytes, from + 4),
        count: le_u32(bytes, from + 8),
        body: from + 12,
    }
}

/// Whether section number `kind` stands between two positions: its header, and a body of the
/// size that the header gives, which for the last section is the bestiary.
pub open spec fn is_section(bytes: Seq<u8>, from: int, to: int, kind: u32) -> bool {
    let header = header_of(bytes, from);
    &&& 0 <= from
    &&& from + 12 <= to <= bytes.len()
    &&& header.kind == kind
    &&& if kind == 11 {
        header.count == 4 && is_bestiary_body(bytes, header.body, to, header.size)
    } else {
        to == header.body + body_size(header)
    }
}

/// Whether the section behind the `k`-th start, counted from number `kind`, reaches to the next
/// start.
pub open spec fn section_at(bytes: Seq<u8>, starts: Seq<int>, kind: int, k: int) -> bool {
    is_section(bytes, starts[k], starts[k + 1], (kind + k) as u32)
}

/// Whether `starts` are where the sections from number `kind` to 11 start, and where the last
/// ends.
pub open spec fn starts_sections(bytes: Seq<u8>, starts: Seq<int>, kind: int) -> bool {
    &&& starts.len() == 13 - kind
    &&& forall|k: int| 0 <= k < 12 - kind ==> #[trigger] section_at(bytes, starts, kind, k)
}

/// Whether the sections 1 to 11 fill the space between two positions, in order.
pub open spec fn are_all_sections(bytes: Seq<u8>, from: int, to: int) -> bool {
    exists|starts: Seq<int>| #[trigger]
        starts_sections(bytes, starts, 1) && starts[0] == from && starts[11] == to
}

/// Whether bytes are laid out as a save: within the size limit, the magic bytes, four bytes, the
/// eleven sections, four bytes and the checksum.
pub open spec fn has_save_layout(bytes: Seq<u8>) -> bool {
    &&& bytes.len() <= MAX_SAVE_SIZE
    &&& has_magic(bytes)
    &&& are_all_sections(bytes, 20, bytes.len() - 8)
    &&& le_u32(bytes, bytes.len() - 4) == checksum_of(bytes)
}

/// Where the bestiary subsections that are found one behind the other start and end.
spec fn found_marks(bytes: Seq<u8>, cursor: int, index: int) -> Seq<int>
    decreases 4 - index,
{
    if index >= 4 {
        seq![cursor]
    } else {
        let next = cursor + 8 + le_u32(bytes, cursor + 4) * 2;
        seq![cursor] + found_marks(bytes, next, index + 1)
    }
}

proof fn marks_are_found(bytes: Seq<u8>, cursor: int, index: int, total: int)
    requires
        0 <= cursor,
        0 <= index <= 4,
        bestiary_end(bytes, cursor, index, total) is Ok,
    ensures
        ({
            let (end, sum) = bestiary_end(bytes, cursor, index, total)->Ok_0;
            let marks = found_marks(bytes, cursor, index);
            &&& marks_subsections(bytes, marks, index)
            &&& marks[0] == cursor
            &&& marks[4 - index] == end
            &&& total + sizes_between(bytes, marks) == sum
        }),
    decreases 4 - index,
{
    if index < 4 {
        let size = le_u32(bytes, cursor + 4);
        let next = cursor + 8 + size * 2;
        assert(skipped(bytes, cursor + 8, size * 2) == Ok::<int, FormatError>(next));
        marks_are_found(bytes, next, index + 1, total + size);
        let rest = found_marks(bytes, next, index + 1);
        let marks = found_marks(bytes, cursor, index);
        assert(marks.drop_first() =~= rest);
        assert forall|t: int| 0 <= t < 4 - index implies #[trigger] subsection_at(
            bytes,
            marks,
            index,
            t,
        ) by {
            if t > 0 {
                assert(subsection_at(bytes, rest, index + 1, t - 1));
            }
        }
    }
}

proof fn marks_are_followed(bytes: Seq<u8>, marks: Seq<int>, index: int, total: int)
    requires
        bytes.len() <= MAX_SAVE_SIZE,
        0 <= index <= 4,
        marks_subsections(bytes, marks, index),
        0 <= total,
        total + sizes_between(bytes, marks) <= u32::MAX,
    ensures
        bestiary_end(bytes, marks[0], index, total) == Ok::<(int, int), FormatError>(
            (marks[4 - index], total + sizes_between(bytes, marks)),
        ),
    decreases 4 - index,
{
    if index < 4 {
        let rest = marks.drop_first();
        assert(subsection_at(bytes, marks, index, 0));
        sizes_are_positive(bytes, rest);
        assert forall|t: int| 0 <= t < 3 - index implies #[trigger] subsection_at(
            bytes,
            rest,
            index + 1,
            t,
        ) by {
            assert(subsection_at(bytes, marks, index, t + 1));
        }
        marks_are_followed(bytes, rest, index + 1, total + le_u32(bytes, marks[0] + 4));
    }
}

proof fn sizes_are_positive(bytes: Seq<u8>, marks: Seq<int>)
    ensures
        sizes_between(bytes, marks) >= 0,
    decreases marks.len(),
{
    if marks.len() > 1 {
        sizes_are_positive(bytes, marks.drop_first());
    }
}

proof fn section_is_found(bytes: Seq<u8>, cursor: int, kind: u32)
    requires
        0 <= cursor,
    ensures
        section_end(bytes, cursor, kind) matches Ok(end) ==> is_section(bytes, cursor, end, kind),
{
    if section_end(bytes, cursor, kind) is Ok {
        let end = section_end(bytes, cursor, kind)->Ok_0;
        let header = header_of(bytes, cursor);
        assert(header_at(bytes, cursor) == Ok::<Header, FormatError>(header));
        if kind == 11 {
            marks_are_found(bytes, header.body, 0, 0);
            let marks = found_marks(bytes, header.body, 0);
            assert(subsection_at(bytes, marks, 0, 0));
            assert(subsection_at(bytes, marks, 0, 1));
            assert(subsection_at(bytes, marks, 0, 2));
            assert(subsection_at(bytes, marks, 0, 3));
        }
    }
}

proof fn section_is_followed(bytes: Seq<u8>, from: int, to: int, kind: u32)
    requires
        bytes.len() <= MAX_SAVE_SIZE,
        is_section(bytes, from, to, kind),
    ensures
        section_end(bytes, from, kind) == Ok::<int, FormatError>(to),
{
    let header = header_of(bytes, from);
    assert(header_at(bytes, from) == Ok::<Header, FormatError>(header));
    if kind == 11 {
        let marks = choose|marks: Seq<int>| #[trigger]
            marks_subsections(bytes, marks, 0) && marks[0] == header.body && marks[4] == to
                && sizes_between(bytes, marks) == header.size;
        marks_are_followed(bytes, marks, 0, 0);
    }
}

/// Where the sections that are found one behind the other start, and where the last ends.
spec fn found_starts(bytes: Seq<u8>, cursor: int, kind: u32) -> Seq<int>
    decreases 12 - kind,
{
    if kind > 11 {
        seq![cursor]
    } else {
        seq![cursor] + found_starts(
            bytes,
            section_end(bytes, cursor, kind)->Ok_0,
            (kind + 1) as u32,
        )
    }
}

proof fn starts_are_found(bytes: Seq<u8>, cursor: int, kind: u32)
    requires
        0 <= cursor,
        kind <= 12,
        sections_end(bytes, cursor, kind) is Ok,
    ensures
        ({
            let starts = found_starts(bytes, cursor, kind);
            &&& starts_sections(bytes, starts, kind as int)
            &&& starts[0] == cursor
            &&& starts[12 - kind] == sections_end(bytes, cursor, kind)->Ok_0
        }),
    decreases 12 - kind,
{
    if kind <= 11 {
        let next = section_end(bytes, cursor, kind)->Ok_0;
        section_is_found(bytes, cursor, kind);
        starts_are_found(bytes, next, (kind + 1) as u32);
        let rest = found_starts(bytes, next, (kind + 1) as u32);
        let starts = found_starts(bytes, cursor, kind);
        assert forall|k: int| 0 <= k < 12 - kind implies #[trigger] section_at(
            bytes,
            starts,
            kind as int,
            k,
        ) by {
            if k > 0 {
                assert(section_at(bytes, rest, kind + 1, k - 1));
            }
        }
    }
}

proof fn starts_are_followed(bytes: Seq<u8>, starts: Seq<int>, kind: u32)
    requires
        bytes.len() <= MAX_SAVE_SIZE,
        kind <= 12,
        starts_sections(bytes, starts, kind as int),
    ensures
        sections_end(bytes, starts[0], kind) == Ok::<int, FormatError>(starts[12 - kind]),
    decreases 12 - kind,
{
    if kind <= 11 {
        let rest = starts.drop_first();
        assert(section_at(bytes, starts, kind as int, 0));
        section_is_followed(bytes, starts[0], starts[1], kind);
        assert forall|k: int| 0 <= k < 11 - kind implies #[trigger] section_at(
            bytes,
            rest,
            kind + 1,
            k,
        ) by {
            assert(section_at(bytes, starts, kind as int, k + 1));
        }
        starts_are_followed(bytes, rest, (kind + 1) as u32);
    }
}

/// A canonical save is exactly what is laid out as one.
pub proof fn canonical_saves_have_the_layout(bytes: Seq<u8>)
    ensures
        is_canonical(bytes) <==> has_save_layout(bytes),
{
    if is_canonical(bytes) {
        starts_are_found(bytes, 20, 1);
    }
    if has_save_layout(bytes) {
        let starts = choose|starts: Seq<int>| #[trigger]
            starts_sections(bytes, starts, 1) && starts[0] == 20 && starts[11] == bytes.len() - 8;
        starts_are_followed(bytes, starts, 1);
    }
}

} // verus!
