//! Which streams are LZ4 blocks, and what they stand for.
use vstd::prelude::*;

use crate::bytes::le_u16;
use crate::lz4::{
    copy_back, decode_from, extension, length_at, literal_step, lz4_decoded, match_step,
    steps_advance, Lz4Error, MAX_SAVE_SIZE,
};
use crate::lz4_laws::{
    copy_back_length, encoded_literals, encoded_match, expanded, expanded_length, length_bits,
    length_bytes, literals_read, match_read, rest_bytes, token, token_parts, well_formed, Sequence,
};

verus! {

/// The bytes of sequences that are each followed by something.
pub open spec fn spelled(sequences: Seq<Sequence>) -> Seq<u8>
    decreases sequences.len(),
{
    if sequences.len() == 0 {
        Seq::empty()
    } else {
        let first = sequences[0];
        encoded_literals(first.literals, first.length - 4) + encoded_match(
            first.offset,
            first.length,
        ) + spelled(sequences.drop_first())
    }
}

/// How a block ends: with literals, whose token has four bits that mean nothing, or with a match.
pub enum BlockEnd {
    Literals { tail: Seq<u8>, unused: int },
    Match,
}

/// The bytes at the end of a block.
pub open spec fn end_bytes(end: BlockEnd) -> Seq<u8> {
    match end {
        BlockEnd::Literals { tail, unused } => encoded_literals(tail, unused),
        BlockEnd::Match => Seq::empty(),
    }
}

/// The literals at the end of a block.
pub open spec fn end_literals(end: BlockEnd) -> Seq<u8> {
    match end {
        BlockEnd::Literals { tail, .. } => tail,
        BlockEnd::Match => Seq::empty(),
    }
}

/// Whether a stream is the block of these sequences and this end, behind `output`: every match
/// reaches back into what stands before it.
pub open spec fn is_block(
    input: Seq<u8>,
    output: Seq<u8>,
    sequences: Seq<Sequence>,
    end: BlockEnd,
) -> bool {
    &&& well_formed(output, sequences)
    &&& end matches BlockEnd::Literals { unused, .. } ==> 0 <= unused <= 15
    &&& input == spelled(sequences) + end_bytes(end)
}

proof fn extension_is_spelled(input: Seq<u8>, cursor: int, total: int)
    requires
        0 <= cursor,
        extension(input, cursor, total) is Ok,
    ensures
        ({
            let (n, next) = extension(input, cursor, total)->Ok_0;
            &&& n >= total
            &&& cursor < next <= input.len()
            &&& input.subrange(cursor, next) == rest_bytes(n - total)
        }),
    decreases input.len() - cursor,
{
    let (n, next) = extension(input, cursor, total)->Ok_0;
    if input[cursor] == 255 {
        extension_is_spelled(input, cursor + 1, total + 255);
        assert(input.subrange(cursor, next) =~= seq![255u8] + input.subrange(cursor + 1, next));
    } else {
        assert(input.subrange(cursor, next) =~= seq![input[cursor]]);
    }
}

proof fn length_is_spelled(input: Seq<u8>, cursor: int, base: int)
    requires
        0 <= cursor <= input.len(),
        0 <= base <= 15,
        length_at(input, cursor, base) is Ok,
    ensures
        ({
            let (n, next) = length_at(input, cursor, base)->Ok_0;
            &&& n >= 0
            &&& base == length_bits(n)
            &&& cursor <= next <= input.len()
            &&& input.subrange(cursor, next) == length_bytes(n)
        }),
{
    if base == 15 {
        extension_is_spelled(input, cursor, 15);
    } else {
        assert(input.subrange(cursor, cursor) =~= Seq::<u8>::empty());
    }
}

proof fn token_is_made_of_halves(head: u8, literals: int, extra: int)
    requires
        0 <= literals,
        0 <= extra,
        (head >> 4) as int == length_bits(literals),
        (head & 0x0f) as int == length_bits(extra),
    ensures
        head == token(literals, extra),
{
    assert(head == (head >> 4) * 16 + (head & 0x0f)) by (bit_vector);
}

proof fn halves_are_small(head: u8)
    ensures
        head >> 4 <= 15,
        head & 0x0f <= 15,
{
    assert(head >> 4 <= 15 && head & 0x0f <= 15) by (bit_vector);
}

proof fn literals_are_spelled(input: Seq<u8>, cursor: int, output: Seq<u8>) -> (literals: Seq<u8>)
    requires
        0 <= cursor < input.len(),
        literal_step(input, cursor, output) is Ok,
    ensures
        ({
            let step = literal_step(input, cursor, output)->Ok_0;
            &&& cursor < step.next <= input.len()
            &&& step.output == output + literals
            &&& (input[cursor] >> 4) as int == length_bits(literals.len() as int)
            &&& input.subrange(cursor, step.next) == seq![input[cursor]] + length_bytes(
                literals.len() as int,
            ) + literals
        }),
{
    halves_are_small(input[cursor]);
    let base = (input[cursor] >> 4) as int;
    length_is_spelled(input, cursor + 1, base);
    let (n, start) = length_at(input, cursor + 1, base)->Ok_0;
    let literals = input.subrange(start, start + n);
    assert(input.subrange(cursor, start + n) =~= seq![input[cursor]] + input.subrange(
        cursor + 1,
        start,
    ) + literals);
    literals
}

proof fn match_is_spelled(input: Seq<u8>, head: u8, cursor: int, output: Seq<u8>) -> (found: (
    int,
    int,
))
    requires
        0 <= cursor <= input.len(),
        match_step(input, head, cursor, output) is Ok,
    ensures
        ({
            let step = match_step(input, head, cursor, output)->Ok_0;
            let (offset, length) = found;
            &&& cursor < step.next <= input.len()
            &&& 1 <= offset <= 65535 && offset <= output.len() && length >= 4
            &&& step.output == copy_back(output, offset, length as nat)
            &&& (head & 0x0f) as int == length_bits(length - 4)
            &&& input.subrange(cursor, step.next) == encoded_match(offset, length)
        }),
{
    halves_are_small(head);
    let base = (head & 0x0f) as int;
    length_is_spelled(input, cursor + 2, base);
    let (n, next) = length_at(input, cursor + 2, base)->Ok_0;
    let offset = le_u16(input, cursor) as int;
    assert(offset % 256 == input[cursor] && offset / 256 == input[cursor + 1]);
    assert(input.subrange(cursor, next) =~= seq![input[cursor], input[cursor + 1]]
        + input.subrange(cursor + 2, next));
    (offset, n + 4)
}

proof fn decoded_streams_are_blocks(input: Seq<u8>, cursor: int, output: Seq<u8>) -> (found: (
    Seq<Sequence>,
    BlockEnd,
))
    requires
        0 <= cursor <= input.len(),
        decode_from(input, cursor, output) is Ok,
    ensures
        is_block(input.skip(cursor), output, found.0, found.1),
        decode_from(input, cursor, output)->Ok_0 == expanded(
            output,
            found.0,
            end_literals(found.1),
        ),
    decreases input.len() - cursor,
{
    let none = Seq::<Sequence>::empty();
    if cursor >= input.len() {
        assert(input.skip(cursor) =~= spelled(none) + end_bytes(BlockEnd::Match));
        assert(expanded(output, none, Seq::empty()) =~= output);
        (none, BlockEnd::Match)
    } else {
        let head = input[cursor];
        steps_advance(input, cursor, output);
        halves_are_small(head);
        let literals = literals_are_spelled(input, cursor, output);
        let literal = literal_step(input, cursor, output)->Ok_0;
        if literal.next == input.len() {
            let unused = (head & 0x0f) as int;
            let end = BlockEnd::Literals { tail: literals, unused };
            assert(length_bits(unused) == unused);
            token_is_made_of_halves(head, literals.len() as int, unused);
            assert(input.skip(cursor) =~= input.subrange(cursor, literal.next));
            assert(input.skip(cursor) =~= spelled(none) + end_bytes(end));
            assert(expanded(output, none, literals) =~= output + literals);
            (none, end)
        } else {
            let (offset, length) = match_is_spelled(input, head, literal.next, literal.output);
            let copied = match_step(input, head, literal.next, literal.output)->Ok_0;
            token_is_made_of_halves(head, literals.len() as int, length - 4);
            let (rest, end) = decoded_streams_are_blocks(input, copied.next, copied.output);
            let first = Sequence { literals, offset, length };
            let sequences = seq![first] + rest;
            assert(sequences.drop_first() =~= rest);
            assert(input.skip(cursor) =~= input.subrange(cursor, literal.next) + input.subrange(
                literal.next,
                copied.next,
            ) + input.skip(copied.next));
            assert(input.skip(cursor) =~= spelled(sequences) + end_bytes(end));
            (sequences, end)
        }
    }
}

proof fn blocks_are_decoded(
    before: Seq<u8>,
    sequences: Seq<Sequence>,
    end: BlockEnd,
    output: Seq<u8>,
)
    requires
        well_formed(output, sequences),
        end matches BlockEnd::Literals { unused, .. } ==> 0 <= unused <= 15,
        (before + (spelled(sequences) + end_bytes(end))).len() <= MAX_SAVE_SIZE,
        expanded(output, sequences, end_literals(end)).len() <= MAX_SAVE_SIZE,
    ensures
        decode_from(
            before + (spelled(sequences) + end_bytes(end)),
            before.len() as int,
            output,
        ) == Ok::<Seq<u8>, Lz4Error>(expanded(output, sequences, end_literals(end))),
    decreases sequences.len(),
{
    let tail = end_literals(end);
    let input = before + (spelled(sequences) + end_bytes(end));
    if sequences.len() == 0 {
        match end {
            BlockEnd::Literals { tail, unused } => {
                assert(input =~= before + encoded_literals(tail, unused) + Seq::<u8>::empty());
                literals_read(before, tail, unused, Seq::empty(), output);
                assert(expanded(output, sequences, tail) =~= output + tail);
            },
            BlockEnd::Match => {
                assert(input =~= before);
                assert(expanded(output, sequences, tail) =~= output);
            },
        }
    } else {
        let first = sequences[0];
        let rest = sequences.drop_first();
        let extra = first.length - 4;
        let literals = output + first.literals;
        let copied = copy_back(literals, first.offset, first.length as nat);
        let spoken = encoded_literals(first.literals, extra);
        let matched = encoded_match(first.offset, first.length);
        let behind = spelled(rest) + end_bytes(end);
        copy_back_length(literals, first.offset, first.length as nat);
        expanded_length(copied, rest, tail);
        assert(input =~= before + spoken + (matched + behind));
        literals_read(before, first.literals, extra, matched + behind, output);
        assert(input =~= (before + spoken) + matched + behind);
        token_parts(first.literals.len() as int, extra);
        let head = input[before.len() as int];
        assert(head == token(first.literals.len() as int, extra));
        match_read(before + spoken, head, first.offset, first.length, behind, literals);
        let consumed = before + spoken + matched;
        assert(input =~= consumed + behind);
        blocks_are_decoded(consumed, rest, end, copied);
    }
}

/// A stream is decoded exactly where it is a block of at most 32 MiB that stands for at most as
/// much, and then to what the block stands for. Anything else is refused.
pub proof fn exactly_blocks_are_decoded(input: Seq<u8>)
    ensures
        lz4_decoded(input) matches Ok(stream) ==> 0 < input.len() <= 33_554_432 && exists|
            sequences: Seq<Sequence>,
            end: BlockEnd,
        | #[trigger]
            is_block(input, Seq::empty(), sequences, end) && stream == expanded(
                Seq::empty(),
                sequences,
                end_literals(end),
            ),
        forall|sequences: Seq<Sequence>, end: BlockEnd|
            0 < input.len() <= 33_554_432 && #[trigger] is_block(
                input,
                Seq::empty(),
                sequences,
                end,
            ) && expanded(Seq::empty(), sequences, end_literals(end)).len() <= 33_554_432
                ==> lz4_decoded(input) == Ok::<Seq<u8>, Lz4Error>(
                expanded(Seq::empty(), sequences, end_literals(end)),
            ),
{
    if lz4_decoded(input) is Ok {
        let (sequences, end) = decoded_streams_are_blocks(input, 0, Seq::empty());
        assert(input.skip(0) =~= input);
        assert(is_block(input, Seq::empty(), sequences, end));
    }
    assert forall|sequences: Seq<Sequence>, end: BlockEnd|
        0 < input.len() <= 33_554_432 && #[trigger] is_block(
            input,
            Seq::empty(),
            sequences,
            end,
        ) && expanded(Seq::empty(), sequences, end_literals(end)).len()
            <= 33_554_432 implies lz4_decoded(input) == Ok::<Seq<u8>, Lz4Error>(
        expanded(Seq::empty(), sequences, end_literals(end)),
    ) by {
        let empty = Seq::<u8>::empty();
        assert(empty + (spelled(sequences) + end_bytes(end)) =~= input);
        blocks_are_decoded(empty, sequences, end, empty);
    }
}

/// A copy from `offset` bytes back repeats what stands there, byte by byte, also where it reaches
/// into what it has just written.
pub proof fn copies_repeat_what_stands_back(output: Seq<u8>, offset: int, count: nat)
    requires
        1 <= offset <= output.len(),
    ensures
        copy_back(output, offset, count).len() == output.len() + count,
        forall|i: int|
            0 <= i < output.len() ==> #[trigger] copy_back(output, offset, count)[i] == output[i],
        forall|i: int|
            output.len() <= i < output.len() + count ==> #[trigger] copy_back(
                output,
                offset,
                count,
            )[i] == copy_back(output, offset, count)[i - offset],
    decreases count,
{
    if count > 0 {
        let shorter = copy_back(output, offset, (count - 1) as nat);
        let longer = copy_back(output, offset, count);
        copies_repeat_what_stands_back(output, offset, (count - 1) as nat);
        assert forall|i: int| 0 <= i < shorter.len() implies #[trigger] longer[i] == shorter[i] by {}
        assert forall|i: int| output.len() <= i < output.len() + count implies #[trigger] longer[i]
            == longer[i - offset] by {
            if i < shorter.len() {
                assert(shorter[i] == shorter[i - offset]);
            }
        }
    }
}

} // verus!
