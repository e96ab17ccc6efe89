use vstd::prelude::*;

verus! {

/// Relies on chrono's `Utc::now` and `DateTime::timestamp_millis`: the current
/// wall-clock time as milliseconds since the Unix epoch. Nothing is known of
/// the value, which may even go backwards between calls. chrono panics only
/// when the system clock reads before 1970, a state of the machine rather
/// than of any input.
#[verifier::external_body]
pub(crate) fn now_millis() -> (r: i64) {
    chrono::Utc::now().timestamp_millis()
}

/// Relies on uuid's `Uuid::new_v4` and `Uuid::as_u128`: a random version-4
/// identifier as its 128-bit big-endian value. Only the version nibble (4)
/// and the RFC 4122 variant bits (`10`) are fixed; the rest is random. uuid
/// panics only when the operating system's random source fails.
#[verifier::external_body]
pub(crate) fn fresh_id() -> (r: u128)
    ensures
        r & 0xF000_0000_0000_0000_0000u128 == 0x4000_0000_0000_0000_0000u128,
        r & 0xC000_0000_0000_0000u128 == 0x8000_0000_0000_0000u128,
{
    uuid::Uuid::new_v4().as_u128()
}

} // verus!
