//! Random identifiers.
use vstd::prelude::*;

use crate::bytes::{le_u32, read_le_u32};
use crate::digest::hex_text;

verus! {

/// Whether `bytes` are marked as a random identifier of the fourth version.
pub open spec fn is_random_id(bytes: Seq<u8>) -> bool {
    bytes.len() == 16 && bytes[6] / 16 == 4 && bytes[8] / 64 == 2
}

/// `uuid::Uuid::new_v4`: sixteen random bytes, of which only the version and the variant are
/// known.
#[verifier::external_body]
pub(crate) fn random_id() -> (bytes: [u8; 16])
    ensures
        is_random_id(bytes@),
{
    *uuid::Uuid::new_v4().as_bytes()
}

/// Groups of hexadecimal digits with hyphens between them.
pub open spec fn hyphenated(bytes: Seq<u8>) -> Seq<char> {
    hex_text(bytes.subrange(0, 4)) + "-"@ + hex_text(bytes.subrange(4, 6)) + "-"@ + hex_text(
        bytes.subrange(6, 8),
    ) + "-"@ + hex_text(bytes.subrange(8, 10)) + "-"@ + hex_text(bytes.subrange(10, 16))
}

/// The `Display` text of `uuid::Uuid`: the lower-case hyphenated form.
#[verifier::external_body]
fn id_text(bytes: [u8; 16]) -> (text: String)
    ensures
        text@ == hyphenated(bytes@),
{
    uuid::Uuid::from_bytes(bytes).to_string()
}

/// The name of a temporary file that `prefix` and `id` make up.
pub open spec fn temp_name(prefix: Seq<char>, id: Seq<u8>) -> Seq<char> {
    "."@ + prefix + "."@ + hyphenated(id) + ".tmp"@
}

/// The name of a temporary file for the identifier `id`.
pub fn temp_name_for(prefix: &str, id: [u8; 16]) -> (name: String)
    ensures
        name@ == temp_name(prefix@, id@),
{
    let mut name: String = ".".to_owned();
    name.append(prefix);
    name.append(".");
    name.append(id_text(id).as_str());
    name.append(".tmp");
    name
}

/// The name of a new temporary file, to stand in the directory of what it replaces.
pub fn unique_temp_path(prefix: &str) -> (name: String)
    ensures
        exists|id: Seq<u8>| is_random_id(id) && name@ == #[trigger] temp_name(prefix@, id),
{
    let id: [u8; 16] = random_id();
    let name: String = temp_name_for(prefix, id);
    assert(is_random_id(id@) && name@ == temp_name(prefix@, id@));
    name
}

/// The identifier of one synchronization.
pub fn operation_id() -> (text: String)
    ensures
        exists|id: Seq<u8>| is_random_id(id) && text@ == #[trigger] hyphenated(id),
{
    let id: [u8; 16] = random_id();
    let text: String = id_text(id);
    assert(is_random_id(id@) && text@ == hyphenated(id@));
    text
}

/// The first eight bytes of an identifier as a number, the lowest byte first.
pub open spec fn client_id(id: Seq<u8>) -> u64 {
    (le_u32(id, 0) + le_u32(id, 4) * 0x1_0000_0000) as u64
}

/// The client identifier that `id` gives.
pub fn client_id_of(id: [u8; 16]) -> (client: u64)
    ensures
        client == client_id(id@),
{
    let low: u32 = read_le_u32(&id, 0);
    let high: u32 = read_le_u32(&id, 4);
    low as u64 + high as u64 * 0x1_0000_0000
}

/// A client identifier for one upload.
pub fn random_client_id() -> (client: u64)
    ensures
        exists|id: Seq<u8>| is_random_id(id) && client == #[trigger] client_id(id),
{
    let id: [u8; 16] = random_id();
    let client: u64 = client_id_of(id);
    assert(is_random_id(id@) && client == client_id(id@));
    client
}

} // verus!
