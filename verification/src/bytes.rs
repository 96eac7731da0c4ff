//! Little-endian integers inside byte sequences, and copying of byte ranges.
use vstd::prelude::*;
use vstd::slice::slice_subrange;

verus! {

/// The little-endian `u32` that occupies `bytes[at..at + 4]`.
pub open spec fn le_u32(bytes: Seq<u8>, at: int) -> u32 {
    (bytes[at] + bytes[at + 1] * 0x100 + bytes[at + 2] * 0x1_0000 + bytes[at + 3]
        * 0x100_0000) as u32
}

/// The little-endian `u16` that occupies `bytes[at..at + 2]`.
pub open spec fn le_u16(bytes: Seq<u8>, at: int) -> u16 {
    (bytes[at] + bytes[at + 1] * 0x100) as u16
}

/// The four bytes of `value`, least significant first.
pub open spec fn le_bytes(value: u32) -> Seq<u8> {
    seq![
        (value % 0x100) as u8,
        (value / 0x100 % 0x100) as u8,
        (value / 0x1_0000 % 0x100) as u8,
        (value / 0x100_0000 % 0x100) as u8,
    ]
}

/// Reading the four bytes that were written for `value` gives `value` back.
pub proof fn le_bytes_read_back(value: u32)
    ensures
        le_bytes(value).len() == 4,
        le_u32(le_bytes(value), 0) == value,
{
}

/// A `u32` is determined by its four bytes, wherever they stand.
pub proof fn le_u32_of_equal_ranges(a: Seq<u8>, at: int, b: Seq<u8>, bt: int)
    requires
        a[at] == b[bt],
        a[at + 1] == b[bt + 1],
        a[at + 2] == b[bt + 2],
        a[at + 3] == b[bt + 3],
    ensures
        le_u32(a, at) == le_u32(b, bt),
{
}

/// Four bytes are the little-endian form of the number that they read as.
pub proof fn le_bytes_of_read(bytes: Seq<u8>, at: int)
    requires
        0 <= at,
        at + 4 <= bytes.len(),
    ensures
        bytes.subrange(at, at + 4) == le_bytes(le_u32(bytes, at)),
{
    let read = bytes.subrange(at, at + 4);
    let a = bytes[at] as int;
    let b = bytes[at + 1] as int;
    let c = bytes[at + 2] as int;
    let d = bytes[at + 3] as int;
    let value = a + b * 0x100 + c * 0x1_0000 + d * 0x100_0000;
    assert(le_u32(bytes, at) == value);
    assert(value % 0x100 == a);
    assert(value / 0x100 == b + c * 0x100 + d * 0x1_0000);
    assert(value / 0x100 % 0x100 == b);
    assert(value / 0x1_0000 == c + d * 0x100);
    assert(value / 0x1_0000 % 0x100 == c);
    assert(value / 0x100_0000 == d);
    assert(value / 0x100_0000 % 0x100 == d);
    assert(read =~= le_bytes(le_u32(bytes, at)));
}

/// Reads the little-endian `u32` at `at`.
pub fn read_le_u32(bytes: &[u8], at: usize) -> (value: u32)
    requires
        at + 4 <= bytes@.len(),
    ensures
        value == le_u32(bytes@, at as int),
{
    bytes[at] as u32 + bytes[at + 1] as u32 * 0x100 + bytes[at + 2] as u32 * 0x1_0000 + bytes[at
        + 3] as u32 * 0x100_0000
}

/// Reads the little-endian `u16` at `at`.
pub fn read_le_u16(bytes: &[u8], at: usize) -> (value: u16)
    requires
        at + 2 <= bytes@.len(),
    ensures
        value == le_u16(bytes@, at as int),
{
    bytes[at] as u16 + bytes[at + 1] as u16 * 0x100
}

/// Appends the four bytes of `value`, least significant first.
pub fn push_le_u32(out: &mut Vec<u8>, value: u32)
    ensures
        final(out)@ == old(out)@ + le_bytes(value),
{
    out.push((value % 0x100) as u8);
    out.push((value / 0x100 % 0x100) as u8);
    out.push((value / 0x1_0000 % 0x100) as u8);
    out.push((value / 0x100_0000 % 0x100) as u8);
    assert(out@ =~= old(out)@ + le_bytes(value));
}

/// Appends `bytes[from..to]`.
pub fn push_range(out: &mut Vec<u8>, bytes: &[u8], from: usize, to: usize)
    requires
        from <= to <= bytes@.len(),
    ensures
        final(out)@ == old(out)@ + bytes@.subrange(from as int, to as int),
{
    out.extend_from_slice(slice_subrange(bytes, from, to));
    assert(out@ =~= old(out)@ + bytes@.subrange(from as int, to as int));
}

/// Appends `count` zero bytes.
pub fn push_zeros(out: &mut Vec<u8>, count: usize)
    ensures
        final(out)@ == old(out)@ + Seq::new(count as nat, |i: int| 0u8),
{
    let mut done: usize = 0;
    while done < count
        invariant
            done <= count,
            out@ =~= old(out)@ + Seq::new(done as nat, |i: int| 0u8),
        decreases count - done,
    {
        out.push(0u8);
        done += 1;
    }
}

/// Copies a slice into a vector.
pub fn to_vec(bytes: &[u8]) -> (out: Vec<u8>)
    ensures
        out@ == bytes@,
{
    let mut out: Vec<u8> = Vec::new();
    out.extend_from_slice(bytes);
    assert(out@ =~= bytes@);
    out
}

/// Whether two byte sequences are equal.
pub fn same_bytes(a: &[u8], b: &[u8]) -> (same: bool)
    ensures
        same == (a@ == b@),
{
    if a.len() != b.len() {
        return false;
    }
    let mut i: usize = 0;
    while i < a.len()
        invariant
            a@.len() == b@.len(),
            i <= a@.len(),
            forall|j: int| 0 <= j < i ==> a@[j] == b@[j],
        decreases a@.len() - i,
    {
        if a[i] != b[i] {
            return false;
        }
        i += 1;
    }
    assert(a@ =~= b@);
    true
}

} // verus!
