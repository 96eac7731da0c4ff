//! What the LZ4 decoder gives back of an encoded stream.
use vstd::prelude::*;

use crate::bytes::le_u16;
use crate::lz4::{
    copy_back, decode_from, extension, extension_advances, length_at, literal_step, lz4_decoded,
    match_step, steps_advance, Lz4Error, Step, MAX_SAVE_SIZE,
};

verus! {

/// One sequence of a block that is followed by another: literal bytes, and a match that
/// repeats `length` bytes from `offset` bytes back.
pub struct Sequence {
    pub literals: Seq<u8>,
    pub offset: int,
    pub length: int,
}

/// The four bits of a token that announce the length `n`.
pub open spec fn length_bits(n: int) -> int {
    if n < 15 {
        n
    } else {
        15
    }
}

/// The extension bytes for a rest of `rest`.
pub open spec fn rest_bytes(rest: int) -> Seq<u8>
    decreases rest,
{
    if rest < 255 {
        seq![rest as u8]
    } else {
        seq![255u8] + rest_bytes(rest - 255)
    }
}

/// The extension bytes of the length `n`.
pub open spec fn length_bytes(n: int) -> Seq<u8> {
    if n < 15 {
        Seq::empty()
    } else {
        rest_bytes(n - 15)
    }
}

/// The token of a sequence.
pub open spec fn token(literals: int, extra: int) -> u8 {
    (length_bits(literals) * 16 + length_bits(extra)) as u8
}

/// The bytes of a sequence up to the end of its literals.
pub open spec fn encoded_literals(literals: Seq<u8>, extra: int) -> Seq<u8> {
    seq![token(literals.len() as int, extra)] + length_bytes(literals.len() as int) + literals
}

/// The bytes of a sequence from its offset on.
pub open spec fn encoded_match(offset: int, length: int) -> Seq<u8> {
    seq![(offset % 256) as u8, (offset / 256) as u8] + length_bytes(length - 4)
}

/// The block made of `sequences` and the literals `tail`.
pub open spec fn encoded(sequences: Seq<Sequence>, tail: Seq<u8>) -> Seq<u8>
    decreases sequences.len(),
{
    if sequences.len() == 0 {
        encoded_literals(tail, 0)
    } else {
        let first = sequences[0];
        encoded_literals(first.literals, first.length - 4) + encoded_match(
            first.offset,
            first.length,
        ) + encoded(sequences.drop_first(), tail)
    }
}

/// The stream that `sequences` and the literals `tail` stand for, behind `output`.
pub open spec fn expanded(output: Seq<u8>, sequences: Seq<Sequence>, tail: Seq<u8>) -> Seq<u8>
    decreases sequences.len(),
{
    if sequences.len() == 0 {
        output + tail
    } else {
        let first = sequences[0];
        expanded(
            copy_back(output + first.literals, first.offset, first.length as nat),
            sequences.drop_first(),
            tail,
        )
    }
}

/// Every match is at least four bytes long and reaches back into the stream by at most
/// the 65535 bytes that an offset can express.
pub open spec fn well_formed(output: Seq<u8>, sequences: Seq<Sequence>) -> bool
    decreases sequences.len(),
{
    sequences.len() == 0 || {
        let first = sequences[0];
        &&& first.length >= 4
        &&& 1 <= first.offset <= 65535
        &&& first.offset <= output.len() + first.literals.len()
        &&& well_formed(
            copy_back(output + first.literals, first.offset, first.length as nat),
            sequences.drop_first(),
        )
    }
}

pub(crate) proof fn copy_back_length(output: Seq<u8>, offset: int, count: nat)
    ensures
        copy_back(output, offset, count).len() == output.len() + count,
    decreases count,
{
    if count > 0 {
        copy_back_length(output, offset, (count - 1) as nat);
    }
}

pub(crate) proof fn expanded_length(output: Seq<u8>, sequences: Seq<Sequence>, tail: Seq<u8>)
    ensures
        expanded(output, sequences, tail).len() >= output.len(),
    decreases sequences.len(),
{
    if sequences.len() > 0 {
        let first = sequences[0];
        let next = copy_back(output + first.literals, first.offset, first.length as nat);
        copy_back_length(output + first.literals, first.offset, first.length as nat);
        expanded_length(next, sequences.drop_first(), tail);
    }
}

pub(crate) proof fn token_parts(literals: int, extra: int)
    requires
        0 <= literals,
        0 <= extra,
    ensures
        (token(literals, extra) >> 4) as int == length_bits(literals),
        (token(literals, extra) & 0x0f) as int == length_bits(extra),
{
    let high = length_bits(literals) as u8;
    let low = length_bits(extra) as u8;
    let both = (high * 16 + low) as u8;
    assert(token(literals, extra) == both);
    assert(both >> 4 == high && both & 0x0f == low) by (bit_vector)
        requires
            high <= 15,
            low <= 15,
            both == high * 16 + low,
    ;
}

proof fn rest_bytes_read(before: Seq<u8>, rest: int, after: Seq<u8>, total: int)
    requires
        rest >= 0,
        total >= 0,
        total + rest <= usize::MAX,
    ensures
        extension(before + rest_bytes(rest) + after, before.len() as int, total) == Ok::<
            (int, int),
            Lz4Error,
        >((total + rest, (before.len() + rest_bytes(rest).len()) as int)),
    decreases rest,
{
    let input = before + rest_bytes(rest) + after;
    let cursor = before.len() as int;
    assert(input[cursor] == rest_bytes(rest)[0]);
    if rest >= 255 {
        let further = before.push(255u8);
        rest_bytes_read(further, rest - 255, after, total + 255);
        assert(further + rest_bytes(rest - 255) + after =~= input);
    }
}

proof fn length_bytes_read(before: Seq<u8>, n: int, after: Seq<u8>)
    requires
        0 <= n <= usize::MAX,
    ensures
        length_at(before + length_bytes(n) + after, before.len() as int, length_bits(n)) == Ok::<
            (int, int),
            Lz4Error,
        >((n, (before.len() + length_bytes(n).len()) as int)),
{
    if n >= 15 {
        rest_bytes_read(before, n - 15, after, 15);
    }
}

pub(crate) proof fn literals_read(
    before: Seq<u8>,
    literals: Seq<u8>,
    extra: int,
    after: Seq<u8>,
    output: Seq<u8>,
)
    requires
        extra >= 0,
        (before + encoded_literals(literals, extra) + after).len() <= MAX_SAVE_SIZE,
        output.len() + literals.len() <= MAX_SAVE_SIZE,
    ensures
        literal_step(
            before + encoded_literals(literals, extra) + after,
            before.len() as int,
            output,
        ) == Ok::<Step, Lz4Error>(
            Step {
                output: output + literals,
                next: (before.len() + encoded_literals(literals, extra).len()) as int,
            },
        ),
{
    let head = token(literals.len() as int, extra);
    let input = before + encoded_literals(literals, extra) + after;
    let cursor = before.len() as int;
    token_parts(literals.len() as int, extra);
    assert(input[cursor] == head);
    let begun = before.push(head);
    length_bytes_read(begun, literals.len() as int, literals + after);
    assert(begun + length_bytes(literals.len() as int) + (literals + after) =~= input);
    let start = (begun.len() + length_bytes(literals.len() as int).len()) as int;
    assert(input.subrange(start, (start + literals.len()) as int) =~= literals);
}

pub(crate) proof fn match_read(
    before: Seq<u8>,
    head: u8,
    offset: int,
    length: int,
    after: Seq<u8>,
    output: Seq<u8>,
)
    requires
        length >= 4,
        1 <= offset <= 65535,
        offset <= output.len(),
        (head & 0x0f) as int == length_bits(length - 4),
        output.len() + length <= MAX_SAVE_SIZE,
    ensures
        match_step(
            before + encoded_match(offset, length) + after,
            head,
            before.len() as int,
            output,
        ) == Ok::<Step, Lz4Error>(
            Step {
                output: copy_back(output, offset, length as nat),
                next: (before.len() + encoded_match(offset, length).len()) as int,
            },
        ),
{
    let input = before + encoded_match(offset, length) + after;
    let cursor = before.len() as int;
    let low = (offset % 256) as u8;
    let high = (offset / 256) as u8;
    assert(input[cursor] == low);
    assert(input[cursor + 1] == high);
    assert(le_u16(input, cursor) == offset);
    let begun = before.push(low).push(high);
    length_bytes_read(begun, length - 4, after);
    assert(begun + length_bytes(length - 4) + after =~= input);
}

proof fn encoded_read(before: Seq<u8>, sequences: Seq<Sequence>, tail: Seq<u8>, output: Seq<u8>)
    requires
        well_formed(output, sequences),
        (before + encoded(sequences, tail)).len() <= MAX_SAVE_SIZE,
        expanded(output, sequences, tail).len() <= MAX_SAVE_SIZE,
    ensures
        decode_from(before + encoded(sequences, tail), before.len() as int, output) == Ok::<
            Seq<u8>,
            Lz4Error,
        >(expanded(output, sequences, tail)),
    decreases sequences.len(),
{
    let input = before + encoded(sequences, tail);
    if sequences.len() == 0 {
        assert(input =~= before + encoded_literals(tail, 0) + Seq::<u8>::empty());
        literals_read(before, tail, 0, Seq::empty(), output);
    } else {
        let first = sequences[0];
        let rest = sequences.drop_first();
        let extra = first.length - 4;
        let literals = output + first.literals;
        let copied = copy_back(literals, first.offset, first.length as nat);
        let spelled = encoded_literals(first.literals, extra);
        let matched = encoded_match(first.offset, first.length);
        copy_back_length(literals, first.offset, first.length as nat);
        expanded_length(copied, rest, tail);
        assert(input =~= before + spelled + (matched + encoded(rest, tail)));
        literals_read(before, first.literals, extra, matched + encoded(rest, tail), output);
        assert(input =~= (before + spelled) + matched + encoded(rest, tail));
        token_parts(first.literals.len() as int, extra);
        let head = input[before.len() as int];
        assert(head == token(first.literals.len() as int, extra));
        match_read(
            before + spelled,
            head,
            first.offset,
            first.length,
            encoded(rest, tail),
            literals,
        );
        let consumed = before + spelled + matched;
        assert(input =~= consumed + encoded(rest, tail));
        encoded_read(consumed, rest, tail, copied);
    }
}

/// Decoding a block gives back the stream that was encoded: for every way to write a
/// stream as literals and matches, within the size limit, the decoder returns that stream.
pub proof fn decoding_inverts_encoding(sequences: Seq<Sequence>, tail: Seq<u8>)
    requires
        well_formed(Seq::empty(), sequences),
        encoded(sequences, tail).len() <= MAX_SAVE_SIZE,
        expanded(Seq::empty(), sequences, tail).len() <= MAX_SAVE_SIZE,
    ensures
        lz4_decoded(encoded(sequences, tail)) == Ok::<Seq<u8>, Lz4Error>(
            expanded(Seq::empty(), sequences, tail),
        ),
{
    assert(Seq::<u8>::empty() + encoded(sequences, tail) =~= encoded(sequences, tail));
    encoded_read(Seq::empty(), sequences, tail, Seq::empty());
}

/// Decoding undoes an encoding without matches, that of nothing included: a stream of less than
/// fifteen bytes behind its length in the upper half of a byte, and one of less than 270 behind a
/// byte of `0xf0` and the rest of its length.
pub proof fn literal_blocks_read_back(stream: Seq<u8>)
    ensures
        stream.len() < 15 ==> lz4_decoded(seq![(stream.len() * 16) as u8] + stream) == Ok::<
            Seq<u8>,
            Lz4Error,
        >(stream),
        15 <= stream.len() < 270 ==> lz4_decoded(
            seq![0xf0u8, (stream.len() - 15) as u8] + stream,
        ) == Ok::<Seq<u8>, Lz4Error>(stream),
{
    let none = Seq::<Sequence>::empty();
    let block = encoded(none, stream);
    assert(expanded(Seq::empty(), none, stream) =~= stream);
    if stream.len() < 15 {
        assert(block =~= seq![(stream.len() * 16) as u8] + stream);
        decoding_inverts_encoding(none, stream);
    } else if stream.len() < 270 {
        assert(block =~= seq![0xf0u8, (stream.len() - 15) as u8] + stream);
        decoding_inverts_encoding(none, stream);
    }
}

proof fn decoded_from_within_limit(input: Seq<u8>, cursor: int, output: Seq<u8>)
    requires
        output.len() <= MAX_SAVE_SIZE,
    ensures
        decode_from(input, cursor, output) matches Ok(decoded) ==> decoded.len() <= MAX_SAVE_SIZE,
    decreases input.len() - cursor,
{
    if 0 <= cursor < input.len() {
        steps_advance(input, cursor, output);
        extension_advances(input, cursor + 1, 15);
        if let Ok(literal) = literal_step(input, cursor, output) {
            if literal.next != input.len() {
                if let Ok(copied) = match_step(input, input[cursor], literal.next, literal.output) {
                    extension_advances(input, literal.next + 2, 15);
                    if let Ok((length, next)) = length_at(
                        input,
                        literal.next + 2,
                        (input[cursor] & 0x0f) as int,
                    ) {
                        copy_back_length(
                            literal.output,
                            le_u16(input, literal.next) as int,
                            (length + 4) as nat,
                        );
                    }
                    decoded_from_within_limit(input, copied.next, copied.output);
                }
            }
        }
    }
}

/// No block decodes to more than `MAX_SAVE_SIZE` bytes.
pub proof fn decoded_within_limit(input: Seq<u8>)
    ensures
        lz4_decoded(input) matches Ok(decoded) ==> decoded.len() <= MAX_SAVE_SIZE,
{
    decoded_from_within_limit(input, 0, Seq::empty());
}

} // verus!
