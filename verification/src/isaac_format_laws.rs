//! What holds of canonical forms and of the conversion between the two generations.
use vstd::prelude::*;

use crate::bytes::{le_bytes, le_bytes_of_read, le_bytes_read_back, le_u32, le_u32_of_equal_ranges};
use crate::isaac_crc::{isaac_crc, ISAAC_CRC_SEED};
use crate::isaac_format::{
    as_rep, as_rep_plus, bestiary_end, canonical_form, checksum_of, has_magic, header_at,
    header_bytes, is_canonical, is_rep_plus, rep_body, rep_form, rep_plus_body, rep_plus_form,
    sealed, section_end, sections_end, skipped, word_at, FormatError, SaveEncoding, SaveError,
    REPENTANCE_MAGIC,
};
use crate::lz4::{
    copy_back, decode_from, extension_advances, length_at, literal_step, lz4_decoded, match_step,
    steps_advance, MAX_SAVE_SIZE,
};
use crate::lz4_laws::{decoding_inverts_encoding, encoded, expanded, well_formed, Sequence};
use crate::save_achievements::{is_unlocked, save_unlocks, unlocks_of};

verus! {

/// Whatever is accepted is canonical, and canonicalizing it again changes nothing.
pub proof fn canonical_form_is_stable(input: Seq<u8>)
    ensures
        canonical_form(input) matches Ok((data, _)) ==> is_canonical(data) && canonical_form(data)
            == Ok::<(Seq<u8>, SaveEncoding), SaveError>((data, SaveEncoding::SteamCanonical)),
{
}

proof fn copy_back_keeps(output: Seq<u8>, offset: int, count: nat)
    ensures
        copy_back(output, offset, count).len() == output.len() + count,
        copy_back(output, offset, count).take(output.len() as int) == output,
    decreases count,
{
    if count > 0 {
        copy_back_keeps(output, offset, (count - 1) as nat);
    }
    assert(copy_back(output, offset, count).take(output.len() as int) =~= output);
}

proof fn decoding_keeps(input: Seq<u8>, cursor: int, output: Seq<u8>)
    ensures
        decode_from(input, cursor, output) matches Ok(decoded) ==> output.len() <= decoded.len()
            && decoded.take(output.len() as int) == output,
    decreases input.len() - cursor,
{
    if 0 <= cursor < input.len() {
        steps_advance(input, cursor, output);
        extension_advances(input, cursor + 1, 15);
        if let Ok(literal) = literal_step(input, cursor, output) {
            assert(literal.output.take(output.len() as int) =~= output);
            if literal.next != input.len() {
                if let Ok(copied) = match_step(input, input[cursor], literal.next, literal.output) {
                    extension_advances(input, literal.next + 2, 15);
                    if let Ok((length, next)) = length_at(
                        input,
                        literal.next + 2,
                        (input[cursor] & 0x0f) as int,
                    ) {
                        copy_back_keeps(
                            literal.output,
                            crate::bytes::le_u16(input, literal.next) as int,
                            (length + 4) as nat,
                        );
                    }
                    decoding_keeps(input, copied.next, copied.output);
                    if let Ok(decoded) = decode_from(input, copied.next, copied.output) {
                        assert(decoded.take(output.len() as int) =~= copied.output.take(
                            literal.output.len() as int,
                        ).take(output.len() as int));
                    }
                }
            }
        }
    } else {
        assert(output.take(output.len() as int) =~= output);
    }
}

/// A stream that starts with the magic bytes is never the LZ4 form of a canonical save.
proof fn magic_is_no_block_of_a_save(input: Seq<u8>)
    requires
        has_magic(input),
    ensures
        lz4_decoded(input) matches Ok(decoded) ==> !has_magic(decoded),
{
    let head = input[0];
    assert(head == input.take(16)[0]);
    assert(input.take(16)[1] == 0x53);
    assert(0x49u8 >> 4 == 4) by (bit_vector);
    assert(length_at(input, 1, 4) == Ok::<(int, int), crate::lz4::Lz4Error>((4, 1)));
    if let Ok(decoded) = lz4_decoded(input) {
        if let Ok(literal) = literal_step(input, 0, Seq::empty()) {
            assert(literal.output =~= input.subrange(1, 5));
            if literal.next != input.len() {
                if let Ok(copied) = match_step(input, head, literal.next, literal.output) {
                    extension_advances(input, literal.next + 2, 15);
                    if let Ok((length, next)) = length_at(
                        input,
                        literal.next + 2,
                        (head & 0x0f) as int,
                    ) {
                        copy_back_keeps(
                            literal.output,
                            crate::bytes::le_u16(input, literal.next) as int,
                            (length + 4) as nat,
                        );
                    }
                    decoding_keeps(input, copied.next, copied.output);
                    assert(decoded.take(copied.output.len() as int)[0] == copied.output[0]);
                    assert(copied.output.take(literal.output.len() as int)[0]
                        == literal.output[0]);
                }
            }
            assert(decoded[0] == 0x53);
            assert(decoded.take(16)[0] == decoded[0]);
        }
    }
}

/// The native iOS form of a save reads as that save: for every way to write a canonical
/// save as an LZ4 block within the size limit, canonicalizing the block gives the save back.
pub proof fn ios_form_reads_back(sequences: Seq<Sequence>, tail: Seq<u8>)
    requires
        well_formed(Seq::empty(), sequences),
        encoded(sequences, tail).len() <= MAX_SAVE_SIZE,
        is_canonical(expanded(Seq::empty(), sequences, tail)),
    ensures
        canonical_form(encoded(sequences, tail)) == Ok::<(Seq<u8>, SaveEncoding), SaveError>(
            (expanded(Seq::empty(), sequences, tail), SaveEncoding::IosRawLz4),
        ),
{
    decoding_inverts_encoding(sequences, tail);
    if has_magic(encoded(sequences, tail)) {
        magic_is_no_block_of_a_save(encoded(sequences, tail));
    }
}

/// Whether `b`, from `cursor + shift` up to `limit + shift`, repeats `a` from `cursor` up to
/// `limit`.
spec fn repeats(a: Seq<u8>, b: Seq<u8>, cursor: int, limit: int, shift: int) -> bool {
    &&& 0 <= cursor
    &&& limit <= a.len()
    &&& 0 <= cursor + shift
    &&& limit + shift <= b.len()
    &&& b.len() <= MAX_SAVE_SIZE
    &&& forall|i: int| cursor <= i < limit ==> #[trigger] a[i] == b[i + shift]
}

proof fn word_repeats(a: Seq<u8>, b: Seq<u8>, cursor: int, limit: int, shift: int)
    requires
        repeats(a, b, cursor, limit, shift),
        cursor + 4 <= limit,
    ensures
        word_at(b, cursor + shift) == Ok::<(u32, int), FormatError>(
            (le_u32(a, cursor), cursor + shift + 4),
        ),
{
    assert(a[cursor] == b[cursor + shift]);
    assert(a[cursor + 1] == b[cursor + 1 + shift]);
    assert(a[cursor + 2] == b[cursor + 2 + shift]);
    assert(a[cursor + 3] == b[cursor + 3 + shift]);
    le_u32_of_equal_ranges(a, cursor, b, cursor + shift);
}

proof fn bestiary_advances(bytes: Seq<u8>, cursor: int, index: int, total: int)
    requires
        0 <= index,
    ensures
        bestiary_end(bytes, cursor, index, total) matches Ok((end, _)) ==> cursor <= end,
    decreases 4 - index,
{
    if index < 4 {
        if let Ok((kind, second)) = word_at(bytes, cursor) {
            if let Ok((size, body)) = word_at(bytes, second) {
                if let Ok(next) = skipped(bytes, body, size * 2) {
                    bestiary_advances(bytes, next, index + 1, total + size);
                }
            }
        }
    }
}

proof fn bestiary_repeats(
    a: Seq<u8>,
    b: Seq<u8>,
    cursor: int,
    limit: int,
    shift: int,
    index: int,
    total: int,
)
    requires
        0 <= index,
        repeats(a, b, cursor, limit, shift),
        bestiary_end(a, cursor, index, total) matches Ok((end, _)) && end <= limit,
    ensures
        ({
            let (end, sum) = bestiary_end(a, cursor, index, total)->Ok_0;
            bestiary_end(b, cursor + shift, index, total) == Ok::<(int, int), FormatError>(
                (end + shift, sum),
            )
        }),
    decreases 4 - index,
{
    if index < 4 {
        let size = le_u32(a, cursor + 4);
        let next = cursor + 8 + size * 2;
        bestiary_advances(a, next, index + 1, total + size);
        word_repeats(a, b, cursor, limit, shift);
        word_repeats(a, b, cursor + 4, limit, shift);
        bestiary_repeats(a, b, next, limit, shift, index + 1, total + size);
    }
}

proof fn section_advances(bytes: Seq<u8>, cursor: int, kind: u32)
    ensures
        section_end(bytes, cursor, kind) matches Ok(end) ==> cursor + 12 <= end,
{
    if let Ok(header) = header_at(bytes, cursor) {
        bestiary_advances(bytes, header.body, 0, 0);
    }
}

proof fn sections_advance(bytes: Seq<u8>, cursor: int, kind: u32)
    ensures
        sections_end(bytes, cursor, kind) matches Ok(end) ==> cursor <= end,
    decreases 12 - kind,
{
    if kind <= 11 {
        section_advances(bytes, cursor, kind);
        if let Ok(next) = section_end(bytes, cursor, kind) {
            sections_advance(bytes, next, (kind + 1) as u32);
        }
    }
}

proof fn section_repeats(a: Seq<u8>, b: Seq<u8>, cursor: int, limit: int, shift: int, kind: u32)
    requires
        repeats(a, b, cursor, limit, shift),
        section_end(a, cursor, kind) matches Ok(end) && end <= limit,
    ensures
        section_end(b, cursor + shift, kind) == Ok::<int, FormatError>(
            section_end(a, cursor, kind)->Ok_0 + shift,
        ),
{
    section_advances(a, cursor, kind);
    word_repeats(a, b, cursor, limit, shift);
    word_repeats(a, b, cursor + 4, limit, shift);
    word_repeats(a, b, cursor + 8, limit, shift);
    if kind == 11 {
        bestiary_repeats(a, b, cursor + 12, limit, shift, 0, 0);
    }
}

/// The sections of a save are recognized wherever they stand.
proof fn sections_repeat(a: Seq<u8>, b: Seq<u8>, cursor: int, limit: int, shift: int, kind: u32)
    requires
        repeats(a, b, cursor, limit, shift),
        sections_end(a, cursor, kind) matches Ok(end) && end <= limit,
    ensures
        sections_end(b, cursor + shift, kind) == Ok::<int, FormatError>(
            sections_end(a, cursor, kind)->Ok_0 + shift,
        ),
    decreases 12 - kind,
{
    if kind <= 11 {
        let next = section_end(a, cursor, kind)->Ok_0;
        section_advances(a, cursor, kind);
        sections_advance(a, next, (kind + 1) as u32);
        section_repeats(a, b, cursor, limit, shift, kind);
        sections_repeat(a, b, next, limit, shift, (kind + 1) as u32);
    }
}

/// A valid save is complete: cut off anywhere, or with anything behind it, it is none.
pub proof fn no_valid_save_extends_another(a: Seq<u8>, b: Seq<u8>)
    requires
        is_canonical(a),
        a != b,
        a.is_prefix_of(b) || b.is_prefix_of(a),
    ensures
        !is_canonical(b),
{
    if a.len() == b.len() {
        assert(a =~= b);
    } else if is_canonical(b) {
        let (short, long) = if a.len() < b.len() {
            (a, b)
        } else {
            (b, a)
        };
        sections_advance(short, 20, 1);
        sections_repeat(short, long, 20, short.len() - 8, 0, 1);
    }
}

/// A canonical save with the section sizes of the Repentance generation.
pub open spec fn is_standard_rep(data: Seq<u8>) -> bool {
    &&& is_canonical(data)
    &&& le_u32(data, 24) == 638
    &&& le_u32(data, 28) == 638
    &&& le_u32(data, 674) == 1984
    &&& le_u32(data, 678) == 496
}

/// A canonical save with the section sizes of the Repentance+ generation.
pub open spec fn is_standard_rep_plus(data: Seq<u8>) -> bool {
    &&& is_canonical(data)
    &&& le_u32(data, 24) == 642
    &&& le_u32(data, 28) == 642
    &&& le_u32(data, 678) == 2092
    &&& le_u32(data, 682) == 523
}

proof fn sealed_reads(body: Seq<u8>)
    requires
        body.len() >= 16,
    ensures
        sealed(body).len() == body.len() + 4,
        sealed(body).take(body.len() as int) == body,
        le_u32(sealed(body), sealed(body).len() - 4) == checksum_of(sealed(body)),
{
    let checksum = isaac_crc(body.skip(16), ISAAC_CRC_SEED);
    let whole = sealed(body);
    le_bytes_read_back(checksum);
    assert(whole.take(body.len() as int) =~= body);
    assert(whole.subrange(16, whole.len() - 4) =~= body.skip(16));
    le_u32_of_equal_ranges(whole, body.len() as int, le_bytes(checksum), 0);
}

proof fn header_reads(bytes: Seq<u8>, at: int, kind: u32, size: u32, count: u32)
    requires
        0 <= at,
        at + 12 <= bytes.len() <= MAX_SAVE_SIZE,
        bytes.subrange(at, at + 12) == header_bytes(kind, size, count),
    ensures
        le_u32(bytes, at) == kind,
        le_u32(bytes, at + 4) == size,
        le_u32(bytes, at + 8) == count,
{
    let header = bytes.subrange(at, at + 12);
    le_bytes_read_back(kind);
    le_bytes_read_back(size);
    le_bytes_read_back(count);
    assert forall|i: int| 0 <= i < 12 implies #[trigger] header[i] == bytes[at + i] by {}
    assert(header[0] == le_bytes(kind)[0] && header[1] == le_bytes(kind)[1] && header[2]
        == le_bytes(kind)[2] && header[3] == le_bytes(kind)[3]);
    assert(header[4] == le_bytes(size)[0] && header[5] == le_bytes(size)[1] && header[6]
        == le_bytes(size)[2] && header[7] == le_bytes(size)[3]);
    assert(header[8] == le_bytes(count)[0] && header[9] == le_bytes(count)[1] && header[10]
        == le_bytes(count)[2] && header[11] == le_bytes(count)[3]);
    le_u32_of_equal_ranges(bytes, at, le_bytes(kind), 0);
    le_u32_of_equal_ranges(bytes, at + 4, le_bytes(size), 0);
    le_u32_of_equal_ranges(bytes, at + 8, le_bytes(count), 0);
}

proof fn header_written(bytes: Seq<u8>, at: int, kind: u32, size: u32, count: u32)
    requires
        0 <= at,
        at + 12 <= bytes.len(),
        le_u32(bytes, at) == kind,
        le_u32(bytes, at + 4) == size,
        le_u32(bytes, at + 8) == count,
    ensures
        bytes.subrange(at, at + 12) == header_bytes(kind, size, count),
{
    le_bytes_of_read(bytes, at);
    le_bytes_of_read(bytes, at + 4);
    le_bytes_of_read(bytes, at + 8);
    assert(bytes.subrange(at, at + 12) =~= bytes.subrange(at, at + 4) + bytes.subrange(
        at + 4,
        at + 8,
    ) + bytes.subrange(at + 8, at + 12));
}

/// Where the third section of a save with the given first two sections starts, and where
/// the sections end.
proof fn sections_of_standard(data: Seq<u8>, achievements: u32, counters: u32)
    requires
        is_canonical(data),
        le_u32(data, 24) == achievements,
        achievements <= 1000,
        counters <= 1000,
        le_u32(data, 32 + achievements + 8) == counters,
    ensures
        le_u32(data, 20) == 1,
        le_u32(data, 32 + achievements) == 2,
        44 + achievements + counters * 4 <= data.len() - 8,
        sections_end(data, 44 + achievements + counters * 4, 3) == Ok::<int, FormatError>(
            data.len() - 8,
        ),
{
    reveal_with_fuel(sections_end, 3);
    let second = 32 + achievements;
    let third = second + 12 + counters * 4;
    assert(section_end(data, 20, 1) == Ok::<int, FormatError>(second as int));
    assert(section_end(data, second as int, 2) == Ok::<int, FormatError>(third as int));
    sections_advance(data, third as int, 3);
}

/// A save whose first two sections are given and whose later sections end before the
/// trailer is canonical.
proof fn standard_is_canonical(data: Seq<u8>, achievements: u32, counters: u32)
    requires
        data.len() <= MAX_SAVE_SIZE,
        has_magic(data),
        le_u32(data, 20) == 1,
        le_u32(data, 24) == achievements,
        achievements <= 1000,
        counters <= 1000,
        le_u32(data, 32 + achievements) == 2,
        le_u32(data, 32 + achievements + 8) == counters,
        44 + achievements + counters * 4 <= data.len() - 8,
        sections_end(data, 44 + achievements + counters * 4, 3) == Ok::<int, FormatError>(
            data.len() - 8,
        ),
        le_u32(data, data.len() - 4) == checksum_of(data),
    ensures
        is_canonical(data),
{
    reveal_with_fuel(sections_end, 3);
    let second = 32 + achievements;
    let third = second + 12 + counters * 4;
    assert(section_end(data, 20, 1) == Ok::<int, FormatError>(second as int));
    assert(section_end(data, second as int, 2) == Ok::<int, FormatError>(third as int));
}

/// What stands at the end of a concatenation.
proof fn last_part(first: Seq<u8>, last: Seq<u8>)
    ensures
        (first + last).len() == first.len() + last.len(),
        (first + last).subrange(first.len() as int, (first.len() + last.len()) as int) == last,
{
    assert((first + last).subrange(first.len() as int, (first.len() + last.len()) as int)
        =~= last);
}

/// What stood in a sequence stands there still when more is appended.
proof fn later_part(first: Seq<u8>, last: Seq<u8>)
    ensures
        (first + last).take(first.len() as int) == first,
        forall|from: int, to: int|
            0 <= from <= to <= first.len() ==> #[trigger] (first + last).subrange(from, to)
                == first.subrange(from, to),
        forall|to: int|
            0 <= to <= first.len() ==> #[trigger] (first + last).take(to) == first.take(to),
{
    assert((first + last).take(first.len() as int) =~= first);
    assert forall|from: int, to: int| 0 <= from <= to <= first.len() implies #[trigger] (first
        + last).subrange(from, to) == first.subrange(from, to) by {
        assert((first + last).subrange(from, to) =~= first.subrange(from, to));
    }
    assert forall|to: int| 0 <= to <= first.len() implies #[trigger] (first + last).take(to)
        == first.take(to) by {
        assert((first + last).take(to) =~= first.take(to));
    }
}

proof fn seven_parts(
    a: Seq<u8>,
    b: Seq<u8>,
    c: Seq<u8>,
    d: Seq<u8>,
    e: Seq<u8>,
    f: Seq<u8>,
    g: Seq<u8>,
)
    ensures
        ({
            let whole = a + b + c + d + e + f + g;
            let to_b = a.len() + b.len();
            let to_c = to_b + c.len();
            let to_d = to_c + d.len();
            let to_e = to_d + e.len();
            let to_f = to_e + f.len();
            let to_g = to_f + g.len();
            &&& whole.len() == to_g
            &&& whole.take(a.len() as int) == a
            &&& whole.subrange(a.len() as int, to_b as int) == b
            &&& whole.subrange(to_b as int, to_c as int) == c
            &&& whole.subrange(to_c as int, to_d as int) == d
            &&& whole.subrange(to_d as int, to_e as int) == e
            &&& whole.subrange(to_e as int, to_f as int) == f
            &&& whole.subrange(to_f as int, to_g as int) == g
        }),
{
    let whole = a + b + c + d + e + f + g;
    let p2 = a + b;
    let p3 = p2 + c;
    let p4 = p3 + d;
    let p5 = p4 + e;
    let p6 = p5 + f;
    let p7 = p6 + g;
    last_part(a, b);
    last_part(p2, c);
    last_part(p3, d);
    last_part(p4, e);
    last_part(p5, f);
    last_part(p6, g);
    later_part(p2, c);
    later_part(p3, d);
    later_part(p4, e);
    later_part(p5, f);
    later_part(p6, g);
    later_part(a, b);
}

proof fn nine_parts(
    a: Seq<u8>,
    b: Seq<u8>,
    c: Seq<u8>,
    d: Seq<u8>,
    e: Seq<u8>,
    f: Seq<u8>,
    g: Seq<u8>,
    h: Seq<u8>,
    i: Seq<u8>,
)
    ensures
        ({
            let whole = a + b + c + d + e + f + g + h + i;
            let to_b = a.len() + b.len();
            let to_c = to_b + c.len();
            let to_d = to_c + d.len();
            let to_e = to_d + e.len();
            let to_f = to_e + f.len();
            let to_g = to_f + g.len();
            let to_h = to_g + h.len();
            let to_i = to_h + i.len();
            &&& whole.len() == to_i
            &&& whole.take(a.len() as int) == a
            &&& whole.subrange(a.len() as int, to_b as int) == b
            &&& whole.subrange(to_b as int, to_c as int) == c
            &&& whole.subrange(to_c as int, to_d as int) == d
            &&& whole.subrange(to_d as int, to_e as int) == e
            &&& whole.subrange(to_e as int, to_f as int) == f
            &&& whole.subrange(to_f as int, to_g as int) == g
            &&& whole.subrange(to_g as int, to_h as int) == h
            &&& whole.subrange(to_h as int, to_i as int) == i
        }),
{
    let whole = a + b + c + d + e + f + g + h + i;
    let p2 = a + b;
    let p3 = p2 + c;
    let p4 = p3 + d;
    let p5 = p4 + e;
    let p6 = p5 + f;
    let p7 = p6 + g;
    let p8 = p7 + h;
    let p9 = p8 + i;
    last_part(a, b);
    last_part(p2, c);
    last_part(p3, d);
    last_part(p4, e);
    last_part(p5, f);
    last_part(p6, g);
    last_part(p7, h);
    last_part(p8, i);
    later_part(p2, c);
    later_part(p3, d);
    later_part(p4, e);
    later_part(p5, f);
    later_part(p6, g);
    later_part(p7, h);
    later_part(p8, i);
    later_part(a, b);
}

/// The save `plus` is `data` in the Repentance+ layout, part by part.
spec fn plus_parts(data: Seq<u8>, plus: Seq<u8>) -> bool {
    &&& plus.len() == data.len() + 112
    &&& plus.take(16) == REPENTANCE_MAGIC@
    &&& plus.subrange(16, 20) == data.subrange(16, 20)
    &&& plus.subrange(20, 32) == header_bytes(1, 642, 642)
    &&& plus.subrange(32, 670) == data.subrange(32, 670)
    &&& plus.subrange(670, 674) == Seq::new(4, |i: int| 0u8)
    &&& plus.subrange(674, 686) == header_bytes(2, 2092, 523)
    &&& plus.subrange(686, 2670) == data.subrange(682, 2666)
    &&& plus.subrange(2670, 2778) == Seq::new(108, |i: int| 0u8)
    &&& plus.subrange(2778, plus.len() - 4) == data.subrange(2666, data.len() - 4)
    &&& le_u32(plus, plus.len() - 4) == checksum_of(plus)
}

/// The save `rep` is `data` in the Repentance layout, part by part.
spec fn rep_parts(data: Seq<u8>, rep: Seq<u8>) -> bool {
    &&& rep.len() == data.len() - 112
    &&& rep.take(16) == REPENTANCE_MAGIC@
    &&& rep.subrange(16, 20) == data.subrange(16, 20)
    &&& rep.subrange(20, 32) == header_bytes(1, 638, 638)
    &&& rep.subrange(32, 670) == data.subrange(32, 670)
    &&& rep.subrange(670, 682) == header_bytes(2, 1984, 496)
    &&& rep.subrange(682, 2666) == data.subrange(686, 2670)
    &&& rep.subrange(2666, rep.len() - 4) == data.subrange(2778, data.len() - 4)
    &&& le_u32(rep, rep.len() - 4) == checksum_of(rep)
}

proof fn header_length(kind: u32, size: u32, count: u32)
    ensures
        header_bytes(kind, size, count).len() == 12,
{
}

proof fn plus_is_made_of_parts(data: Seq<u8>)
    requires
        data.len() >= 2678,
    ensures
        plus_parts(data, sealed(rep_plus_body(data))),
{
    let body = rep_plus_body(data);
    header_length(1, 642, 642);
    header_length(2, 2092, 523);
    nine_parts(
        REPENTANCE_MAGIC@,
        data.subrange(16, 20),
        header_bytes(1, 642, 642),
        data.subrange(32, 670),
        Seq::new(4, |i: int| 0u8),
        header_bytes(2, 2092, 523),
        data.subrange(682, 2666),
        Seq::new(108, |i: int| 0u8),
        data.subrange(2666, data.len() - 4),
    );
    sealed_reads(body);
    later_part(body, le_bytes(isaac_crc(body.skip(16), ISAAC_CRC_SEED)));
}

proof fn rep_is_made_of_parts(data: Seq<u8>)
    requires
        data.len() >= 2790,
    ensures
        rep_parts(data, sealed(rep_body(data))),
{
    let body = rep_body(data);
    header_length(1, 638, 638);
    header_length(2, 1984, 496);
    seven_parts(
        REPENTANCE_MAGIC@,
        data.subrange(16, 20),
        header_bytes(1, 638, 638),
        data.subrange(32, 670),
        header_bytes(2, 1984, 496),
        data.subrange(686, 2670),
        data.subrange(2778, data.len() - 4),
    );
    sealed_reads(body);
    later_part(body, le_bytes(isaac_crc(body.skip(16), ISAAC_CRC_SEED)));
}

proof fn plus_of_standard_is_standard(data: Seq<u8>, plus: Seq<u8>)
    requires
        is_standard_rep(data),
        data.len() + 112 <= MAX_SAVE_SIZE,
        plus_parts(data, plus),
    ensures
        data.len() >= 2678,
        is_standard_rep_plus(plus),
{
    sections_of_standard(data, 638, 496);
    sections_advance(data, 2666, 3);
    section_advances(data, 2666, 3);
    let n = data.len() as int;
    header_reads(plus, 20, 1, 642, 642);
    header_reads(plus, 674, 2, 2092, 523);
    assert forall|i: int| 2666 <= i < n - 8 implies #[trigger] data[i] == plus[i + 112] by {
        assert(plus.subrange(2778, plus.len() - 4)[i - 2666] == data.subrange(2666, n - 4)[i
            - 2666]);
    }
    sections_repeat(data, plus, 2666, n - 8, 112, 3);
    standard_is_canonical(plus, 642, 523);
}

proof fn rep_of_standard_is_standard(data: Seq<u8>, rep: Seq<u8>)
    requires
        is_standard_rep_plus(data),
        rep_parts(data, rep),
    ensures
        data.len() >= 2790,
        is_standard_rep(rep),
{
    sections_of_standard(data, 642, 523);
    sections_advance(data, 2778, 3);
    section_advances(data, 2778, 3);
    let n = data.len() as int;
    header_reads(rep, 20, 1, 638, 638);
    header_reads(rep, 670, 2, 1984, 496);
    assert forall|i: int| 2778 <= i < n - 8 implies #[trigger] data[i] == rep[i + (-112)] by {
        assert(rep.subrange(2666, rep.len() - 4)[i - 2778] == data.subrange(2778, n - 4)[i
            - 2778]);
    }
    sections_repeat(data, rep, 2778, n - 8, -112, 3);
    standard_is_canonical(rep, 638, 496);
}

/// The Repentance layout of a save that was put into the Repentance+ layout is that save.
proof fn parts_return(rep: Seq<u8>, plus: Seq<u8>, back: Seq<u8>)
    requires
        is_standard_rep(rep),
        rep.len() >= 2678,
        plus_parts(rep, plus),
        rep_parts(plus, back),
    ensures
        back == rep,
{
    let n = rep.len() as int;
    sections_of_standard(rep, 638, 496);
    header_written(rep, 20, 1, 638, 638);
    header_written(rep, 670, 2, 1984, 496);
    joined_rep(back);
    joined_rep(rep);
    assert(back.take(n - 4) == rep.take(n - 4));
    body_determines_save(back, rep);
}

/// The Repentance+ layout of a save that was put into the Repentance layout is that save,
/// where nothing but zeros was left out.
proof fn parts_return_plus(plus: Seq<u8>, rep: Seq<u8>, back: Seq<u8>)
    requires
        is_standard_rep_plus(plus),
        plus.len() >= 2790,
        rep_parts(plus, rep),
        plus_parts(rep, back),
        plus.subrange(670, 674) == Seq::new(4, |i: int| 0u8),
        plus.subrange(2670, 2778) == Seq::new(108, |i: int| 0u8),
    ensures
        back == plus,
{
    let n = plus.len() as int;
    sections_of_standard(plus, 642, 523);
    header_written(plus, 20, 1, 642, 642);
    header_written(plus, 674, 2, 2092, 523);
    joined_plus(back);
    joined_plus(plus);
    assert(back.take(n - 4) == plus.take(n - 4));
    body_determines_save(back, plus);
}

proof fn joined_rep(bytes: Seq<u8>)
    requires
        bytes.len() >= 2678,
    ensures
        bytes.take(bytes.len() - 4) == bytes.take(16) + bytes.subrange(16, 20) + bytes.subrange(
            20,
            32,
        ) + bytes.subrange(32, 670) + bytes.subrange(670, 682) + bytes.subrange(682, 2666)
            + bytes.subrange(2666, bytes.len() - 4),
{
    assert(bytes.take(20) =~= bytes.take(16) + bytes.subrange(16, 20));
    assert(bytes.take(32) =~= bytes.take(20) + bytes.subrange(20, 32));
    assert(bytes.take(670) =~= bytes.take(32) + bytes.subrange(32, 670));
    assert(bytes.take(682) =~= bytes.take(670) + bytes.subrange(670, 682));
    assert(bytes.take(2666) =~= bytes.take(682) + bytes.subrange(682, 2666));
    assert(bytes.take(bytes.len() - 4) =~= bytes.take(2666) + bytes.subrange(
        2666,
        bytes.len() - 4,
    ));
}

proof fn joined_plus(bytes: Seq<u8>)
    requires
        bytes.len() >= 2790,
    ensures
        bytes.take(bytes.len() - 4) == bytes.take(16) + bytes.subrange(16, 20) + bytes.subrange(
            20,
            32,
        ) + bytes.subrange(32, 670) + bytes.subrange(670, 674) + bytes.subrange(674, 686)
            + bytes.subrange(686, 2670) + bytes.subrange(2670, 2778) + bytes.subrange(
            2778,
            bytes.len() - 4,
        ),
{
    assert(bytes.take(20) =~= bytes.take(16) + bytes.subrange(16, 20));
    assert(bytes.take(32) =~= bytes.take(20) + bytes.subrange(20, 32));
    assert(bytes.take(670) =~= bytes.take(32) + bytes.subrange(32, 670));
    assert(bytes.take(674) =~= bytes.take(670) + bytes.subrange(670, 674));
    assert(bytes.take(686) =~= bytes.take(674) + bytes.subrange(674, 686));
    assert(bytes.take(2670) =~= bytes.take(686) + bytes.subrange(686, 2670));
    assert(bytes.take(2778) =~= bytes.take(2670) + bytes.subrange(2670, 2778));
    assert(bytes.take(bytes.len() - 4) =~= bytes.take(2778) + bytes.subrange(
        2778,
        bytes.len() - 4,
    ));
}

/// Two saves with correct checksums are equal where they are equal up to the checksum.
proof fn body_determines_save(a: Seq<u8>, b: Seq<u8>)
    requires
        a.len() == b.len() >= 20,
        a.take(a.len() - 4) == b.take(a.len() - 4),
        le_u32(a, a.len() - 4) == checksum_of(a),
        le_u32(b, b.len() - 4) == checksum_of(b),
    ensures
        a == b,
{
    let n = a.len() as int;
    le_bytes_of_read(a, n - 4);
    le_bytes_of_read(b, n - 4);
    assert(a.subrange(16, n - 4) =~= a.take(n - 4).skip(16));
    assert(b.subrange(16, n - 4) =~= b.take(n - 4).skip(16));
    assert(a =~= a.take(n - 4) + a.subrange(n - 4, n));
    assert(b =~= b.take(n - 4) + b.subrange(n - 4, n));
}

/// Rebuilding a Repentance save in the Repentance+ layout gives a canonical Repentance+
/// save, and rebuilding that in the Repentance layout gives the first save back.
pub proof fn rep_survives_rep_plus(data: Seq<u8>)
    requires
        is_standard_rep(data),
        data.len() + 112 <= MAX_SAVE_SIZE,
    ensures
        as_rep_plus(data) is Ok,
        is_standard_rep_plus(as_rep_plus(data)->Ok_0),
        as_rep(as_rep_plus(data)->Ok_0) == Ok::<Seq<u8>, SaveError>(data),
{
    sections_of_standard(data, 638, 496);
    section_advances(data, 2666, 3);
    sections_advance(data, section_end(data, 2666, 3)->Ok_0, 4);
    let plus = sealed(rep_plus_body(data));
    plus_is_made_of_parts(data);
    plus_of_standard_is_standard(data, plus);
    rep_is_made_of_parts(plus);
    parts_return(data, plus, sealed(rep_body(plus)));
}

/// Rebuilding a Repentance+ save in the Repentance layout gives a canonical Repentance save;
/// where the four achievements and 27 counters that are new in Repentance+ are zero,
/// rebuilding that in the Repentance+ layout gives the first save back.
pub proof fn rep_plus_survives_rep(data: Seq<u8>)
    requires
        is_standard_rep_plus(data),
    ensures
        as_rep(data) is Ok,
        is_standard_rep(as_rep(data)->Ok_0),
        data.subrange(670, 674) == Seq::new(4, |i: int| 0u8) && data.subrange(2670, 2778)
            == Seq::new(108, |i: int| 0u8) ==> as_rep_plus(as_rep(data)->Ok_0) == Ok::<
            Seq<u8>,
            SaveError,
        >(data),
{
    sections_of_standard(data, 642, 523);
    section_advances(data, 2778, 3);
    sections_advance(data, section_end(data, 2778, 3)->Ok_0, 4);
    let rep = sealed(rep_body(data));
    rep_is_made_of_parts(data);
    rep_of_standard_is_standard(data, rep);
    if data.subrange(670, 674) == Seq::new(4, |i: int| 0u8) && data.subrange(2670, 2778)
        == Seq::new(108, |i: int| 0u8) {
        plus_is_made_of_parts(rep);
        parts_return_plus(data, rep, sealed(rep_plus_body(rep)));
    }
}

/// A conversion leaves a save of the wanted generation as it is, and its result is canonical
/// and of the wanted generation.
pub proof fn conversions_reach_their_generation(data: Seq<u8>)
    requires
        is_canonical(data),
    ensures
        !is_rep_plus(data) ==> as_rep(data) == Ok::<Seq<u8>, SaveError>(data),
        is_rep_plus(data) ==> as_rep_plus(data) == Ok::<Seq<u8>, SaveError>(data),
        as_rep(data) matches Ok(rep) ==> is_canonical(rep) && !is_rep_plus(rep),
        as_rep_plus(data) matches Ok(plus) ==> is_canonical(plus) && is_rep_plus(plus),
{
    if is_rep_plus(data) && data.len() >= 2790 {
        let rep = sealed(rep_body(data));
        rep_is_made_of_parts(data);
        if rep.len() <= MAX_SAVE_SIZE {
            header_reads(rep, 20, 1, 638, 638);
        }
    }
    if !is_rep_plus(data) && data.len() >= 2678 {
        let plus = sealed(rep_plus_body(data));
        plus_is_made_of_parts(data);
        if plus.len() <= MAX_SAVE_SIZE {
            header_reads(plus, 20, 1, 642, 642);
        }
    }
}

/// A save has the section sizes of its generation exactly where its first two section headers
/// are those of the generation.
pub proof fn standard_saves_by_their_headers(data: Seq<u8>)
    requires
        is_canonical(data),
    ensures
        is_standard_rep(data) <==> data.len() >= 682 && data.subrange(20, 32) == header_bytes(
            1,
            638,
            638,
        ) && data.subrange(670, 682) == header_bytes(2, 1984, 496),
        is_standard_rep_plus(data) <==> data.len() >= 686 && data.subrange(20, 32) == header_bytes(
            1,
            642,
            642,
        ) && data.subrange(674, 686) == header_bytes(2, 2092, 523),
{
    if is_standard_rep(data) {
        sections_of_standard(data, 638, 496);
        header_written(data, 20, 1, 638, 638);
        header_written(data, 670, 2, 1984, 496);
    }
    if is_standard_rep_plus(data) {
        sections_of_standard(data, 642, 523);
        header_written(data, 20, 1, 642, 642);
        header_written(data, 674, 2, 2092, 523);
    }
    if data.len() >= 682 && data.subrange(20, 32) == header_bytes(1, 638, 638) && data.subrange(
        670,
        682,
    ) == header_bytes(2, 1984, 496) {
        header_reads(data, 20, 1, 638, 638);
        header_reads(data, 670, 2, 1984, 496);
    }
    if data.len() >= 686 && data.subrange(20, 32) == header_bytes(1, 642, 642) && data.subrange(
        674,
        686,
    ) == header_bytes(2, 2092, 523) {
        header_reads(data, 20, 1, 642, 642);
        header_reads(data, 674, 2, 2092, 523);
    }
}

/// Whatever its encoding, a Repentance save that is converted to the Repentance+ layout and back
/// is its own canonical form again, byte for byte.
pub proof fn conversion_there_and_back(input: Seq<u8>)
    requires
        canonical_form(input) is Ok,
        is_standard_rep((canonical_form(input)->Ok_0).0),
        (canonical_form(input)->Ok_0).0.len() + 112 <= MAX_SAVE_SIZE,
    ensures
        rep_plus_form(input) matches Ok(plus) && rep_form(plus) == Ok::<Seq<u8>, SaveError>(
            (canonical_form(input)->Ok_0).0,
        ),
{
    let data = (canonical_form(input)->Ok_0).0;
    rep_survives_rep_plus(data);
    let plus = as_rep_plus(data)->Ok_0;
    is_its_own_form(plus);
    assert(rep_plus_form(input) == Ok::<Seq<u8>, SaveError>(plus));
    assert(rep_form(plus) == as_rep(plus));
}

proof fn is_its_own_form(data: Seq<u8>)
    requires
        is_canonical(data),
    ensures
        canonical_form(data) == Ok::<(Seq<u8>, SaveEncoding), SaveError>(
            (data, SaveEncoding::SteamCanonical),
        ),
{
}

/// A conversion accepts only what has a canonical form. Its result is canonical and of the
/// wanted generation, and converting that again changes nothing. A save of the wanted generation
/// stays as it is; of another it becomes 112 bytes shorter in the Repentance layout, and as much
/// longer in that of Repentance+.
pub proof fn conversions_are_settled(input: Seq<u8>)
    ensures
        rep_form(input) matches Ok(rep) ==> {
            &&& canonical_form(input) is Ok
            &&& is_canonical(rep)
            &&& !is_rep_plus(rep)
            &&& rep_form(rep) == Ok::<Seq<u8>, SaveError>(rep)
            &&& ({
                let data = (canonical_form(input)->Ok_0).0;
                if is_rep_plus(data) {
                    rep.len() == data.len() - 112
                } else {
                    rep == data
                }
            })
        },
        rep_plus_form(input) matches Ok(plus) ==> {
            &&& canonical_form(input) is Ok
            &&& is_canonical(plus)
            &&& is_rep_plus(plus)
            &&& rep_plus_form(plus) == Ok::<Seq<u8>, SaveError>(plus)
            &&& ({
                let data = (canonical_form(input)->Ok_0).0;
                if is_rep_plus(data) {
                    plus == data
                } else {
                    plus.len() == data.len() + 112
                }
            })
        },
{
    canonical_form_is_stable(input);
    if let Ok((data, _)) = canonical_form(input) {
        conversions_reach_their_generation(data);
        if data.len() >= 2790 {
            rep_is_made_of_parts(data);
        }
        if data.len() >= 2678 {
            plus_is_made_of_parts(data);
        }
    }
}

/// Whether `plus` is the save `data` with four more achievements and 27 more counters, all of
/// them zero: the parts are told by where they stand.
pub open spec fn gains_zeros(data: Seq<u8>, plus: Seq<u8>) -> bool {
    &&& plus.len() == data.len() + 112
    &&& forall|i: int| 0 <= i < 20 ==> #[trigger] plus[i] == data[i]
    &&& le_u32(plus, 20) == 1 && le_u32(plus, 24) == 642 && le_u32(plus, 28) == 642
    &&& forall|i: int| 32 <= i < 670 ==> #[trigger] plus[i] == data[i]
    &&& forall|i: int| 670 <= i < 674 ==> #[trigger] plus[i] == 0
    &&& le_u32(plus, 674) == 2 && le_u32(plus, 678) == 2092 && le_u32(plus, 682) == 523
    &&& forall|i: int| 686 <= i < 2670 ==> #[trigger] plus[i] == data[i - 4]
    &&& forall|i: int| 2670 <= i < 2778 ==> #[trigger] plus[i] == 0
    &&& forall|i: int| 2778 <= i < plus.len() - 4 ==> #[trigger] plus[i] == data[i - 112]
}

/// Whether `rep` is the save `data` without its last four achievements and 27 counters: the parts
/// are told by where they stand.
pub open spec fn loses_new_entries(data: Seq<u8>, rep: Seq<u8>) -> bool {
    &&& rep.len() == data.len() - 112
    &&& forall|i: int| 0 <= i < 20 ==> #[trigger] rep[i] == data[i]
    &&& le_u32(rep, 20) == 1 && le_u32(rep, 24) == 638 && le_u32(rep, 28) == 638
    &&& forall|i: int| 32 <= i < 670 ==> #[trigger] rep[i] == data[i]
    &&& le_u32(rep, 670) == 2 && le_u32(rep, 674) == 1984 && le_u32(rep, 678) == 496
    &&& forall|i: int| 682 <= i < 2666 ==> #[trigger] rep[i] == data[i + 4]
    &&& forall|i: int| 2666 <= i < rep.len() - 4 ==> #[trigger] rep[i] == data[i + 112]
}

proof fn parts_by_position(data: Seq<u8>)
    requires
        has_magic(data),
    ensures
        data.len() >= 2678 && data.len() + 112 <= MAX_SAVE_SIZE ==> gains_zeros(
            data,
            sealed(rep_plus_body(data)),
        ),
        2790 <= data.len() <= MAX_SAVE_SIZE ==> loses_new_entries(data, sealed(rep_body(data))),
{
    assert forall|i: int| 0 <= i < 16 implies #[trigger] REPENTANCE_MAGIC@[i] == data[i] by {
        assert(data.take(16)[i] == data[i]);
    }
    if data.len() >= 2678 && data.len() + 112 <= MAX_SAVE_SIZE {
        let plus = sealed(rep_plus_body(data));
        plus_is_made_of_parts(data);
        header_reads(plus, 20, 1, 642, 642);
        header_reads(plus, 674, 2, 2092, 523);
        assert forall|i: int| 0 <= i < 20 implies #[trigger] plus[i] == data[i] by {
            if i < 16 {
                assert(plus.take(16)[i] == REPENTANCE_MAGIC@[i]);
            } else {
                assert(plus.subrange(16, 20)[i - 16] == data.subrange(16, 20)[i - 16]);
            }
        }
        assert forall|i: int| 32 <= i < 670 implies #[trigger] plus[i] == data[i] by {
            assert(plus.subrange(32, 670)[i - 32] == data.subrange(32, 670)[i - 32]);
        }
        assert forall|i: int| 670 <= i < 674 implies #[trigger] plus[i] == 0 by {
            assert(plus.subrange(670, 674)[i - 670] == 0);
        }
        assert forall|i: int| 686 <= i < 2670 implies #[trigger] plus[i] == data[i - 4] by {
            assert(plus.subrange(686, 2670)[i - 686] == data.subrange(682, 2666)[i - 686]);
        }
        assert forall|i: int| 2670 <= i < 2778 implies #[trigger] plus[i] == 0 by {
            assert(plus.subrange(2670, 2778)[i - 2670] == 0);
        }
        let (n, m) = (data.len() - 4, plus.len() - 4);
        assert forall|i: int| 2778 <= i < m implies #[trigger] plus[i] == data[i - 112] by {
            assert(plus.subrange(2778, m)[i - 2778] == data.subrange(2666, n)[i - 2778]);
        }
    }
    if 2790 <= data.len() <= MAX_SAVE_SIZE {
        let rep = sealed(rep_body(data));
        rep_is_made_of_parts(data);
        header_reads(rep, 20, 1, 638, 638);
        header_reads(rep, 670, 2, 1984, 496);
        assert forall|i: int| 0 <= i < 20 implies #[trigger] rep[i] == data[i] by {
            if i < 16 {
                assert(rep.take(16)[i] == REPENTANCE_MAGIC@[i]);
            } else {
                assert(rep.subrange(16, 20)[i - 16] == data.subrange(16, 20)[i - 16]);
            }
        }
        assert forall|i: int| 32 <= i < 670 implies #[trigger] rep[i] == data[i] by {
            assert(rep.subrange(32, 670)[i - 32] == data.subrange(32, 670)[i - 32]);
        }
        assert forall|i: int| 682 <= i < 2666 implies #[trigger] rep[i] == data[i + 4] by {
            assert(rep.subrange(682, 2666)[i - 682] == data.subrange(686, 2670)[i - 682]);
        }
        let (n, m) = (data.len() - 4, rep.len() - 4);
        assert forall|i: int| 2666 <= i < m implies #[trigger] rep[i] == data[i + 112] by {
            assert(rep.subrange(2666, m)[i - 2666] == data.subrange(2778, n)[i - 2666]);
        }
    }
}

/// What a conversion does with the bytes of a save: one whose achievement section counts 642
/// entries or more is of the Repentance+ generation, and one that counts fewer is not. A save of
/// the wanted generation stays as it is, and another one keeps all it can: only the entries that
/// Repentance does not have are left out, or are zero.
pub proof fn conversions_keep_every_entry(input: Seq<u8>)
    ensures
        canonical_form(input) matches Ok((data, _)) ==> {
            &&& le_u32(data, 28) < 642 ==> rep_form(input) == Ok::<Seq<u8>, SaveError>(data)
            &&& le_u32(data, 28) >= 642 ==> rep_plus_form(input) == Ok::<Seq<u8>, SaveError>(data)
            &&& le_u32(data, 28) < 642 ==> (rep_plus_form(input) matches Ok(plus) ==> gains_zeros(
                data,
                plus,
            ))
            &&& le_u32(data, 28) >= 642 ==> (rep_form(input) matches Ok(rep)
                ==> loses_new_entries(data, rep))
        },
{
    canonical_form_is_stable(input);
    if let Ok((data, _)) = canonical_form(input) {
        sections_advance(data, 20, 1);
        section_advances(data, 20, 1);
        if let Ok(next) = section_end(data, 20, 1) {
            sections_advance(data, next, 2);
        }
        assert(data.len() >= 32);
        parts_by_position(data);
        if data.len() >= 2678 {
            plus_is_made_of_parts(data);
        }
        if data.len() >= 2790 {
            rep_is_made_of_parts(data);
        }
    }
}

/// A canonical save starts with an achievement section that lies inside it.
pub proof fn standard_prefix(data: Seq<u8>)
    requires
        is_canonical(data),
    ensures
        data.len() >= 40,
        le_u32(data, 20) == 1,
        32 + le_u32(data, 24) + 8 <= data.len(),
{
    section_advances(data, 20, 1);
    if let Ok(next) = section_end(data, 20, 1) {
        sections_advance(data, next, 2);
    }
    sections_advance(data, 20, 1);
}

/// The conversions keep the unlocks: either layout of a save has the same ones.
pub proof fn conversions_keep_unlocks(data: Seq<u8>)
    ensures
        is_standard_rep(data) && data.len() + 112 <= MAX_SAVE_SIZE ==> unlocks_of(
            as_rep_plus(data)->Ok_0,
        ) == unlocks_of(data),
        is_standard_rep_plus(data) ==> unlocks_of(as_rep(data)->Ok_0) == unlocks_of(data),
{
    if is_standard_rep(data) && data.len() + 112 <= MAX_SAVE_SIZE {
        rep_survives_rep_plus(data);
        sections_of_standard(data, 638, 496);
        let plus = sealed(rep_plus_body(data));
        plus_is_made_of_parts(data);
        header_reads(plus, 20, 1, 642, 642);
        assert forall|id: u32| is_unlocked(plus, id) == is_unlocked(data, id) by {
            if id < 638 {
                assert(plus.subrange(32, 670)[id as int] == data.subrange(32, 670)[id as int]);
            }
        }
        assert(Set::new(|id: u32| is_unlocked(plus, id)) =~= Set::new(
            |id: u32| is_unlocked(data, id),
        ));
    }
    if is_standard_rep_plus(data) {
        rep_plus_survives_rep(data);
        sections_of_standard(data, 642, 523);
        let rep = sealed(rep_body(data));
        rep_is_made_of_parts(data);
        header_reads(rep, 20, 1, 638, 638);
        assert forall|id: u32| is_unlocked(rep, id) == is_unlocked(data, id) by {
            if id < 638 {
                assert(rep.subrange(32, 670)[id as int] == data.subrange(32, 670)[id as int]);
            }
        }
        assert(Set::new(|id: u32| is_unlocked(rep, id)) =~= Set::new(
            |id: u32| is_unlocked(data, id),
        ));
    }
}

/// Whatever its encoding, a Repentance save has the same unlocks before and behind its conversion
/// to the Repentance+ layout, and they can be read.
pub proof fn conversion_keeps_readable_unlocks(input: Seq<u8>)
    requires
        canonical_form(input) is Ok,
        is_standard_rep((canonical_form(input)->Ok_0).0),
    ensures
        rep_plus_form(input) matches Ok(plus) ==> save_unlocks(plus) == save_unlocks(input)
            && save_unlocks(input) is Ok,
{
    let data = (canonical_form(input)->Ok_0).0;
    sections_of_standard(data, 638, 496);
    if let Ok(plus) = rep_plus_form(input) {
        conversions_are_settled(input);
        conversions_keep_unlocks(data);
    }
}

} // verus!
