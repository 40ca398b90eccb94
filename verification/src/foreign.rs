//! Calls into other crates. Each stands behind a contract that Verus takes on
//! trust: the doc comment says which function is called and what is claimed
//! of it.

use vstd::prelude::*;
use crate::encoding::hex_of;

verus! {

/// The SHA-256 digest of a byte string.
pub uninterp spec fn sha256_digest(data: Seq<u8>) -> Seq<u8>;

/// Calls `sha2::Sha256::digest`. The result is the digest of `data`, which
/// depends on `data` alone and is 32 bytes long.
#[verifier::external_body]
pub(crate) fn sha256(data: &[u8]) -> (out: Vec<u8>)
    ensures
        out@ == sha256_digest(data@),
        out@.len() == 32,
{
    <sha2::Sha256 as sha2::Digest>::digest(data).to_vec()
}

/// Calls `hex::encode`. The result holds two lower-case hexadecimal digits
/// for each byte of `data`, the high half first.
#[verifier::external_body]
pub(crate) fn hex_encode(data: &[u8]) -> (out: String)
    ensures
        out@ == hex_of(data@),
{
    hex::encode(data)
}

/// Calls `rand::random` for sixteen bytes. Nothing is claimed of them but
/// their number.
#[verifier::external_body]
pub(crate) fn random_bytes() -> (out: Vec<u8>)
    ensures
        out@.len() == 16,
{
    rand::random::<[u8; 16]>().to_vec()
}

/// Calls `chrono::Utc::now` and `DateTime::timestamp_millis`: the time in
/// milliseconds since the Unix epoch, as the system clock gives it. Nothing
/// is claimed of the value. Like chrono, this expects a clock that does not
/// stand before 1970.
#[verifier::external_body]
pub(crate) fn now_millis() -> (ms: i64) {
    chrono::Utc::now().timestamp_millis()
}

/// Whether chrono can hold a time that many milliseconds from the Unix epoch.
pub uninterp spec fn chrono_holds_millis(ms: int) -> bool;

/// Calls `chrono::DateTime::from_timestamp_millis`, which gives a time for
/// every number of milliseconds within chrono's range and none outside it.
#[verifier::external_body]
pub(crate) fn millis_in_range(ms: i64) -> (ok: bool)
    ensures
        ok == chrono_holds_millis(ms as int),
{
    chrono::DateTime::from_timestamp_millis(ms).is_some()
}

/// Whether a text is an event identifier of the room protocol.
pub uninterp spec fn event_id_well_formed(s: Seq<char>) -> bool;

/// Calls `matrix_sdk::ruma::EventId::parse`, which accepts a text or not by
/// the text alone.
#[verifier::external_body]
pub(crate) fn is_event_id(s: &str) -> (ok: bool)
    ensures
        ok == event_id_well_formed(s@),
{
    matrix_sdk::ruma::EventId::parse(s).is_ok()
}

/// Whether a text is a user identifier of the room protocol.
pub uninterp spec fn user_id_well_formed(s: Seq<char>) -> bool;

/// Calls `matrix_sdk::ruma::UserId::parse`, which accepts a text or not by
/// the text alone.
#[verifier::external_body]
pub(crate) fn is_user_id(s: &str) -> (ok: bool)
    ensures
        ok == user_id_well_formed(s@),
{
    matrix_sdk::ruma::UserId::parse(s).is_ok()
}

/// Whether a text is a room address of the room protocol.
pub uninterp spec fn room_alias_well_formed(s: Seq<char>) -> bool;

/// Calls `matrix_sdk::ruma::RoomAliasId::parse`, which accepts a text or not
/// by the text alone.
#[verifier::external_body]
pub(crate) fn is_room_alias(s: &str) -> (ok: bool)
    ensures
        ok == room_alias_well_formed(s@),
{
    matrix_sdk::ruma::RoomAliasId::parse(s).is_ok()
}

/// A text in lower case.
pub uninterp spec fn lowercase_of(s: Seq<char>) -> Seq<char>;

/// Calls `str::to_lowercase` of the standard library, which maps a text to
/// its lower-case form by the text alone.
#[verifier::external_body]
pub(crate) fn to_lowercase(s: &str) -> (out: String)
    ensures
        out@ == lowercase_of(s@),
{
    s.to_lowercase()
}

} // verus!
