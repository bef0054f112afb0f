//! Identifiers: random UUIDs, and their text.
use vstd::prelude::*;
use crate::service::iso::hex_lower;

verus! {

/// Calls `uuid::Uuid::new_v4()` and `Uuid::as_u128`: a random version-4
/// UUID as a 128-bit number. The crate sets the version nibble to 4 and the
/// variant bits to `10`; the other bits are random.
#[verifier::external_body]
pub(crate) fn new_v4_id() -> (r: u128)
    ensures
        r & 0xF000_C000_0000_0000_0000u128 == 0x4000_8000_0000_0000_0000u128,
{
    uuid::Uuid::new_v4().as_u128()
}

/// The `n` bytes of `v` in big-endian order (the last byte is `v % 256`).
pub open spec fn be_bytes(v: nat, n: nat) -> Seq<u8>
    decreases n,
{
    if n == 0 {
        Seq::empty()
    } else {
        be_bytes(v / 256, (n - 1) as nat).push((v % 256) as u8)
    }
}

/// The hyphenated lowercase text of the UUID whose 128-bit value is `id`:
/// its 16 big-endian bytes in hexadecimal, in groups of 8, 4, 4, 4 and 12
/// digits joined by `-`.
pub open spec fn uuid_text(id: u128) -> Seq<char> {
    let hex = hex_lower(be_bytes(id as nat, 16));
    hex.subrange(0, 8) + seq!['-'] + hex.subrange(8, 12) + seq!['-'] + hex.subrange(12, 16)
        + seq!['-'] + hex.subrange(16, 20) + seq!['-'] + hex.subrange(20, 32)
}

/// Formats `uuid::Uuid::from_u128(id)` with `to_string`. `from_u128` takes
/// the value's big-endian bytes, and `Display` writes the hyphenated form
/// in lowercase hexadecimal.
#[verifier::external_body]
pub(crate) fn uuid_string(id: u128) -> (r: String)
    ensures
        r@ == uuid_text(id),
{
    uuid::Uuid::from_u128(id).to_string()
}

} // verus!
