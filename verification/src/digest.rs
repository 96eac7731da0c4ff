//! Hashes of saves, and their hexadecimal form.
use vstd::prelude::*;

use crate::model::{FileIdentity, IdentityView};

verus! {

/// The SHA-256 digest of a byte sequence.
pub uninterp spec fn sha256_of(bytes: Seq<u8>) -> Seq<u8>;

/// The SHA-1 digest of a byte sequence.
pub uninterp spec fn sha1_of(bytes: Seq<u8>) -> Seq<u8>;

/// `sha2::Sha256::digest`: the digest is a function of the bytes alone and 32 bytes long.
/// Nothing else is claimed of the digest's value.
#[verifier::external_body]
fn sha256(bytes: &[u8]) -> (digest: Vec<u8>)
    ensures
        digest@ == sha256_of(bytes@),
        digest@.len() == 32,
{
    <sha2::Sha256 as sha2::Digest>::digest(bytes).to_vec()
}

/// `sha1::Sha1::digest`: the digest is a function of the bytes alone and 20 bytes long.
/// Nothing else is claimed of the digest's value.
#[verifier::external_body]
fn sha1(bytes: &[u8]) -> (digest: Vec<u8>)
    ensures
        digest@ == sha1_of(bytes@),
        digest@.len() == 20,
{
    <sha1::Sha1 as sha1::Digest>::digest(bytes).to_vec()
}

/// The lower-case hexadecimal digit for a value below sixteen.
pub open spec fn hex_digit(value: int) -> char {
    if value < 10 {
        ('0' as int + value) as char
    } else {
        ('a' as int + value - 10) as char
    }
}

/// The bytes as lower-case hexadecimal digits, two for each byte, the higher half first.
pub open spec fn hex_text(bytes: Seq<u8>) -> Seq<char> {
    Seq::new(
        bytes.len() * 2,
        |i: int|
            if i % 2 == 0 {
                hex_digit(bytes[i / 2] as int / 16)
            } else {
                hex_digit(bytes[i / 2] as int % 16)
            },
    )
}

/// Whether the hexadecimal form of that many bytes is a text that a `String` can hold.
pub open spec fn hex_fits(count: nat) -> bool {
    count * 2 <= isize::MAX
}

/// `hex::encode`: two lower-case hexadecimal digits for each byte, in order. It panics only
/// where the text would be longer than a `String` can be, which the bound rules out.
#[verifier::external_body]
pub(crate) fn hex_encode(bytes: &[u8]) -> (text: String)
    requires
        hex_fits(bytes@.len()),
    ensures
        text@ == hex_text(bytes@),
{
    hex::encode(bytes)
}

/// The SHA-1 digest of `bytes`.
pub fn sha1_digest(bytes: &[u8]) -> (digest: Vec<u8>)
    ensures
        digest@ == sha1_of(bytes@),
        digest@.len() == 20,
{
    sha1(bytes)
}

/// The identity made of the digests and the size of a save.
pub open spec fn identity_of_digests(sha256: Seq<u8>, sha1: Seq<u8>, size: u64) -> IdentityView {
    IdentityView {
        sha256: hex_text(sha256),
        size,
        modified_unix_ms: None,
        steam_sha1: Some(hex_text(sha1)),
    }
}

/// The identity of a byte sequence.
pub open spec fn identity_of(bytes: Seq<u8>) -> IdentityView {
    identity_of_digests(sha256_of(bytes), sha1_of(bytes), bytes.len() as u64)
}

/// Builds the identity made of the digests and the size of a save.
pub fn identity_from_digests(sha256: &[u8], sha1: &[u8], size: u64) -> (identity: FileIdentity)
    requires
        hex_fits(sha256@.len()),
        hex_fits(sha1@.len()),
    ensures
        identity@ == identity_of_digests(sha256@, sha1@, size),
{
    FileIdentity {
        sha256: hex_encode(sha256),
        size,
        modified_unix_ms: None,
        steam_sha1: Some(hex_encode(sha1)),
    }
}

/// Computes the identity of `bytes`, without a modification time.
pub fn identity_for_bytes(bytes: &[u8]) -> (identity: FileIdentity)
    ensures
        identity@ == identity_of(bytes@),
{
    let first: Vec<u8> = sha256(bytes);
    let second: Vec<u8> = sha1(bytes);
    identity_from_digests(&first, &second, bytes.len() as u64)
}

/// The identity of a file that holds `bytes` and reports its size and its time.
pub open spec fn file_identity(
    bytes: Seq<u8>,
    size: u64,
    modified_unix_ms: Option<u64>,
) -> IdentityView {
    IdentityView { size, modified_unix_ms, ..identity_of(bytes) }
}

/// Computes the identity of a file from its contents and what the file system says of it.
pub fn identity_for_file(bytes: &[u8], size: u64, modified_unix_ms: Option<u64>) -> (identity:
    FileIdentity)
    ensures
        identity@ == file_identity(bytes@, size, modified_unix_ms),
{
    let mut identity: FileIdentity = identity_for_bytes(bytes);
    identity.size = size;
    identity.modified_unix_ms = modified_unix_ms;
    identity
}

} // verus!
