//! What the ledger takes from its surroundings: the clock, fresh identifiers
//! and coin flips. Each value is handed on to verified code that is proved for
//! every value it may receive.

use vstd::prelude::*;
use vstd::bytes::spec_u128_to_le_bytes;
use crate::crypto::hex_text;

verus! {

/// Reads the wall clock (`chrono::Utc::now`) as milliseconds since the Unix
/// epoch (`DateTime::timestamp_millis`). Nothing is claimed of the reading.
/// The clock of the machine must not stand before the epoch: `chrono` does
/// not answer such a clock.
#[verifier::external_body]
fn utc_now_millis() -> (millis: i64) {
    chrono::Utc::now().timestamp_millis()
}

/// Draws a random version-4 identifier (`uuid::Uuid::new_v4`) as a 128-bit
/// number. Nothing is claimed of the number drawn.
#[verifier::external_body]
fn random_uuid() -> (id: u128) {
    uuid::Uuid::new_v4().as_u128()
}

/// Flips a fair coin (`rand::random`). Nothing is claimed of the outcome.
#[verifier::external_body]
fn random_bool() -> (heads: bool) {
    rand::random::<bool>()
}

/// The sixteen bytes of an identifier, the most significant first.
pub open spec fn id_bytes(id: u128) -> Seq<u8> {
    spec_u128_to_le_bytes(id).reverse()
}

/// The text of an identifier in the hyphenated form of a UUID: its bytes,
/// the most significant first, in lowercase hexadecimal digits, in groups
/// of eight, four, four, four and twelve digits with hyphens between them.
pub open spec fn uuid_hyphenated(id: u128) -> Seq<char> {
    let bytes = id_bytes(id);
    hex_text(bytes.subrange(0, 4)) + "-"@ + hex_text(bytes.subrange(4, 6)) + "-"@ + hex_text(
        bytes.subrange(6, 8),
    ) + "-"@ + hex_text(bytes.subrange(8, 10)) + "-"@ + hex_text(bytes.subrange(10, 16))
}

/// Writes an identifier as a UUID (`uuid::Uuid::from_u128`, then the
/// `Display` of `uuid::Uuid`): the hyphenated form in lowercase hexadecimal
/// digits, which takes 36 characters.
#[verifier::external_body]
fn format_uuid(id: u128) -> (text: String)
    ensures
        text@ == uuid_hyphenated(id),
        text@.len() == 36,
{
    uuid::Uuid::from_u128(id).to_string()
}

/// The text of an identifier in the hyphenated form of a UUID.
pub fn uuid_text(id: u128) -> (text: String)
    ensures
        text@ == uuid_hyphenated(id),
        text@.len() == 36,
{
    format_uuid(id)
}

/// The clock reading as a count of milliseconds, never negative.
pub open spec fn clamp_millis(reading: i64) -> u64 {
    if reading < 0 {
        0
    } else {
        reading as u64
    }
}

/// Converts a clock reading to a non-negative count of milliseconds.
pub fn millis_from_reading(reading: i64) -> (millis: u64)
    ensures
        millis == clamp_millis(reading),
{
    if reading < 0 {
        0
    } else {
        reading as u64
    }
}

/// Whether a count of milliseconds can come from the clock: it fits in 63
/// bits.
pub open spec fn clock_reading(millis: u64) -> bool {
    millis <= 0x7fff_ffff_ffff_ffff
}

/// Current time in milliseconds since the Unix epoch: the clock's reading
/// as a count that is never negative. Whatever the clock shows, the count
/// fits in 63 bits.
pub fn now_millis() -> (millis: u64)
    ensures
        exists|reading: i64| millis == #[trigger] clamp_millis(reading),
        clock_reading(millis),
{
    let reading = utc_now_millis();
    let millis = millis_from_reading(reading);
    assert(millis == clamp_millis(reading));
    millis
}

/// A fresh transaction or batch identifier.
pub fn fresh_id() -> (id: u128) {
    random_uuid()
}

/// One fair coin flip.
pub fn coin_flip() -> (heads: bool) {
    random_bool()
}

} // verus!
