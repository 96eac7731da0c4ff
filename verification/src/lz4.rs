//! Raw LZ4 blocks, without a frame, as native iOS Isaac writes them.
use vstd::prelude::*;

use crate::bytes::{le_u16, push_range, read_le_u16};

verus! {

/// No save stream, encoded or decoded, may be longer than this.
pub const MAX_SAVE_SIZE: usize = 33_554_432;

/// Why a block was refused.
#[derive(Debug, Clone, Copy, PartialEq, Eq, Structural)]
pub enum Lz4Error {
    /// The block is empty or longer than `MAX_SAVE_SIZE`.
    InputSize,
    /// The block ends inside the bytes of an extended length.
    TruncatedLength,
    /// An extended length does not fit in `usize`.
    LengthOverflow,
    /// The end of a literal does not fit in `usize`.
    LiteralOverflow,
    /// A literal leaves the block, or the output would pass `MAX_SAVE_SIZE`.
    LiteralOutOfBounds,
    /// The block ends inside a match offset.
    TruncatedOffset,
    /// A match offset is zero or reaches before the start of the output.
    InvalidOffset,
    /// A match length does not fit in `usize`.
    MatchOverflow,
    /// A match would take the output past `MAX_SAVE_SIZE`.
    MatchTooLong,
}

impl Lz4Error {
    /// The text of the error.
    pub open spec fn text(self) -> Seq<char> {
        match self {
            Lz4Error::InputSize => "invalid iOS LZ4 save size"@,
            Lz4Error::TruncatedLength => "truncated LZ4 length"@,
            Lz4Error::LengthOverflow => "LZ4 length overflow"@,
            Lz4Error::LiteralOverflow => "LZ4 literal length overflow"@,
            Lz4Error::LiteralOutOfBounds => "LZ4 literal is outside the bounded save stream"@,
            Lz4Error::TruncatedOffset => "truncated LZ4 match offset"@,
            Lz4Error::InvalidOffset => "invalid LZ4 match offset"@,
            Lz4Error::MatchOverflow => "LZ4 match length overflow"@,
            Lz4Error::MatchTooLong => "LZ4 match exceeds the bounded save stream"@,
        }
    }

    /// The text of the error.
    pub fn message(&self) -> (message: String)
        ensures
            message@ == self.text(),
    {
        match self {
            Lz4Error::InputSize => "invalid iOS LZ4 save size".to_owned(),
            Lz4Error::TruncatedLength => "truncated LZ4 length".to_owned(),
            Lz4Error::LengthOverflow => "LZ4 length overflow".to_owned(),
            Lz4Error::LiteralOverflow => "LZ4 literal length overflow".to_owned(),
            Lz4Error::LiteralOutOfBounds => "LZ4 literal is outside the bounded save stream".to_owned(),
            Lz4Error::TruncatedOffset => "truncated LZ4 match offset".to_owned(),
            Lz4Error::InvalidOffset => "invalid LZ4 match offset".to_owned(),
            Lz4Error::MatchOverflow => "LZ4 match length overflow".to_owned(),
            Lz4Error::MatchTooLong => "LZ4 match exceeds the bounded save stream".to_owned(),
        }
    }
}

/// The total of the extension bytes from `cursor` on, added to `total`, and the
/// position behind them: every byte of 255 announces one more.
pub open spec fn extension(input: Seq<u8>, cursor: int, total: int) -> Result<(int, int), Lz4Error>
    decreases input.len() - cursor,
{
    if cursor >= input.len() {
        Err(Lz4Error::TruncatedLength)
    } else if total + input[cursor] > usize::MAX {
        Err(Lz4Error::LengthOverflow)
    } else if input[cursor] != 255 {
        Ok((total + input[cursor], cursor + 1))
    } else {
        extension(input, cursor + 1, total + 255)
    }
}

/// The length that starts with the four bits `base`, and the position behind it:
/// fifteen announces extension bytes at `cursor`.
pub open spec fn length_at(input: Seq<u8>, cursor: int, base: int) -> Result<(int, int), Lz4Error> {
    if base != 15 {
        Ok((base, cursor))
    } else {
        extension(input, cursor, 15)
    }
}

/// `output` extended by `count` bytes, each a copy of the one `offset` before it.
pub open spec fn copy_back(output: Seq<u8>, offset: int, count: nat) -> Seq<u8>
    decreases count,
{
    if count == 0 {
        output
    } else {
        let shorter = copy_back(output, offset, (count - 1) as nat);
        shorter.push(shorter[shorter.len() - offset])
    }
}

/// What one sequence of a block leaves behind.
pub struct Step {
    /// The output so far.
    pub output: Seq<u8>,
    /// Where the next sequence starts.
    pub next: int,
}

/// The literal part of the sequence at `cursor`.
pub open spec fn literal_step(input: Seq<u8>, cursor: int, output: Seq<u8>) -> Result<
    Step,
    Lz4Error,
> {
    match length_at(input, cursor + 1, (input[cursor] >> 4) as int) {
        Err(error) => Err(error),
        Ok((length, start)) => if start + length > usize::MAX {
            Err(Lz4Error::LiteralOverflow)
        } else if start + length > input.len() || output.len() + length > MAX_SAVE_SIZE {
            Err(Lz4Error::LiteralOutOfBounds)
        } else {
            Ok(
                Step {
                    output: output + input.subrange(start, start + length),
                    next: start + length,
                },
            )
        },
    }
}

/// The match part of a sequence, whose offset stands at `cursor` and whose token is `token`.
pub open spec fn match_step(input: Seq<u8>, token: u8, cursor: int, output: Seq<u8>) -> Result<
    Step,
    Lz4Error,
> {
    if cursor + 2 > input.len() {
        Err(Lz4Error::TruncatedOffset)
    } else if le_u16(input, cursor) == 0 || le_u16(input, cursor) > output.len() {
        Err(Lz4Error::InvalidOffset)
    } else {
        match length_at(input, cursor + 2, (token & 0x0f) as int) {
            Err(error) => Err(error),
            Ok((length, next)) => if length + 4 > usize::MAX {
                Err(Lz4Error::MatchOverflow)
            } else if output.len() + length + 4 > MAX_SAVE_SIZE {
                Err(Lz4Error::MatchTooLong)
            } else {
                Ok(
                    Step {
                        output: copy_back(output, le_u16(input, cursor) as int, (length + 4) as nat),
                        next,
                    },
                )
            },
        }
    }
}

/// The extension bytes of a length move the cursor forward, inside the block.
pub proof fn extension_advances(input: Seq<u8>, cursor: int, total: int)
    ensures
        extension(input, cursor, total) matches Ok((length, next)) ==> cursor < next
            <= input.len() && total <= length <= usize::MAX,
    decreases input.len() - cursor,
{
    if cursor < input.len() && total + input[cursor] <= usize::MAX && input[cursor] == 255 {
        extension_advances(input, cursor + 1, total + 255);
    }
}

/// Both parts of a sequence move the cursor forward, inside the block.
pub proof fn steps_advance(input: Seq<u8>, cursor: int, output: Seq<u8>)
    requires
        0 <= cursor < input.len(),
    ensures
        literal_step(input, cursor, output) matches Ok(step) ==> cursor < step.next <= input.len(),
        forall|token: u8, at: int, out: Seq<u8>|
            #![trigger match_step(input, token, at, out)]
            match_step(input, token, at, out) matches Ok(step) ==> at < step.next <= input.len(),
{
    extension_advances(input, cursor + 1, 15);
    assert forall|token: u8, at: int, out: Seq<u8>|
        #![trigger match_step(input, token, at, out)]
        match_step(input, token, at, out) matches Ok(step) implies at < (match_step(
        input,
        token,
        at,
        out,
    )->Ok_0).next <= input.len() by {
        extension_advances(input, at + 2, 15);
    }
}

/// What the sequences from `cursor` on append to `output`.
pub open spec fn decode_from(input: Seq<u8>, cursor: int, output: Seq<u8>) -> Result<
    Seq<u8>,
    Lz4Error,
>
    decreases input.len() - cursor,
{
    if cursor < 0 || cursor >= input.len() {
        Ok(output)
    } else {
        proof {
            steps_advance(input, cursor, output);
        }
        match literal_step(input, cursor, output) {
            Err(error) => Err(error),
            Ok(literal) => if literal.next == input.len() {
                Ok(literal.output)
            } else {
                match match_step(input, input[cursor], literal.next, literal.output) {
                    Err(error) => Err(error),
                    Ok(copied) => decode_from(input, copied.next, copied.output),
                }
            },
        }
    }
}

/// The decoded form of the block `input`, or why it is refused.
pub open spec fn lz4_decoded(input: Seq<u8>) -> Result<Seq<u8>, Lz4Error> {
    if input.len() == 0 || input.len() > MAX_SAVE_SIZE {
        Err(Lz4Error::InputSize)
    } else {
        decode_from(input, 0, Seq::empty())
    }
}

/// Reads a length that starts with the four bits `base`, and moves `cursor` behind it.
/// On an error the position is not specified further than that it stays inside the block.
fn extended_length(input: &[u8], cursor: &mut usize, base: usize) -> (result: Result<usize, Lz4Error>)
    requires
        *old(cursor) <= input@.len(),
    ensures
        *final(cursor) <= input@.len(),
        match result {
            Ok(length) => length_at(input@, *old(cursor) as int, base as int) == Ok::<
                (int, int),
                Lz4Error,
            >((length as int, *final(cursor) as int)),
            Err(error) => length_at(input@, *old(cursor) as int, base as int) == Err::<
                (int, int),
                Lz4Error,
            >(error),
        },
{
    if base != 15 {
        return Ok(base);
    }
    let mut length: usize = base;
    loop
        invariant
            *cursor <= input@.len(),
            base == 15,
            length_at(input@, *old(cursor) as int, base as int) == extension(
                input@,
                *cursor as int,
                length as int,
            ),
        decreases input@.len() - *cursor,
    {
        if *cursor >= input.len() {
            return Err(Lz4Error::TruncatedLength);
        }
        let byte: u8 = input[*cursor];
        *cursor = *cursor + 1;
        match length.checked_add(byte as usize) {
            None => {
                return Err(Lz4Error::LengthOverflow);
            },
            Some(total) => {
                length = total;
            },
        }
        if byte != 255 {
            return Ok(length);
        }
    }
}

/// Decodes a raw LZ4 block whose input and output both stay within `MAX_SAVE_SIZE`.
pub fn decode_raw_lz4(input: &[u8]) -> (result: Result<Vec<u8>, Lz4Error>)
    ensures
        match result {
            Ok(output) => lz4_decoded(input@) == Ok::<Seq<u8>, Lz4Error>(output@),
            Err(error) => lz4_decoded(input@) == Err::<Seq<u8>, Lz4Error>(error),
        },
{
    if input.len() == 0 || input.len() > MAX_SAVE_SIZE {
        return Err(Lz4Error::InputSize);
    }
    let mut output: Vec<u8> = Vec::new();
    let mut cursor: usize = 0;
    while cursor < input.len()
        invariant
            cursor <= input@.len() <= MAX_SAVE_SIZE,
            output@.len() <= MAX_SAVE_SIZE,
            lz4_decoded(input@) == decode_from(input@, cursor as int, output@),
        decreases input@.len() - cursor,
    {
        let ghost at = cursor as int;
        let ghost before = output@;
        proof {
            steps_advance(input@, at, before);
        }
        let token: u8 = input[cursor];
        cursor += 1;
        assert(token >> 4 < 16) by (bit_vector);
        let literal_length: usize = match extended_length(input, &mut cursor, (token >> 4) as usize) {
            Ok(length) => length,
            Err(error) => {
                return Err(error);
            },
        };
        let literal_end: usize = match cursor.checked_add(literal_length) {
            Some(end) => end,
            None => {
                return Err(Lz4Error::LiteralOverflow);
            },
        };
        if literal_end > input.len() || literal_length > MAX_SAVE_SIZE - output.len() {
            return Err(Lz4Error::LiteralOutOfBounds);
        }
        push_range(&mut output, input, cursor, literal_end);
        cursor = literal_end;
        // A final literal-only sequence ends exactly at the input boundary.
        if cursor == input.len() {
            return Ok(output);
        }
        if input.len() - cursor < 2 {
            return Err(Lz4Error::TruncatedOffset);
        }
        let offset: usize = read_le_u16(input, cursor) as usize;
        cursor += 2;
        if offset == 0 || offset > output.len() {
            return Err(Lz4Error::InvalidOffset);
        }
        let match_length: usize = match extended_length(input, &mut cursor, (token & 0x0f) as usize) {
            Ok(length) => match length.checked_add(4) {
                Some(length) => length,
                None => {
                    return Err(Lz4Error::MatchOverflow);
                },
            },
            Err(error) => {
                return Err(error);
            },
        };
        if match_length > MAX_SAVE_SIZE - output.len() {
            return Err(Lz4Error::MatchTooLong);
        }
        let ghost literals = output@;
        let mut copied: usize = 0;
        while copied < match_length
            invariant
                copied <= match_length,
                0 < offset <= literals.len(),
                literals.len() + match_length <= MAX_SAVE_SIZE,
                output@ == copy_back(literals, offset as int, copied as nat),
                output@.len() == literals.len() + copied,
            decreases match_length - copied,
        {
            let value: u8 = output[output.len() - offset];
            output.push(value);
            copied += 1;
        }
    }
    Ok(output)
}

} // verus!
