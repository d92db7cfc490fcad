//! Note ids are UUIDs, held as their 128-bit big-endian value. This module
//! reads the creation time of time-based UUIDs and prints ids in the usual
//! hyphenated form, through the `uuid` crate.

use vstd::prelude::*;

verus! {

/// The lowercase hexadecimal digit for `n` (taken modulo 16).
pub open spec fn hex_digit(n: u128) -> char {
    let d = n % 16;
    if d < 10 {
        (48 + d) as char
    } else {
        (87 + d) as char
    }
}

/// The 4-bit group `k` of `id`, counting from the most significant.
pub open spec fn nibble(id: u128, k: int) -> u128 {
    (id >> ((124 - 4 * k) as u128)) & 15
}

/// Number of hyphens before text position `p` of the hyphenated form.
pub open spec fn hyphens_before(p: int) -> int {
    if p < 9 { 0 } else if p < 14 { 1 } else if p < 19 { 2 } else if p < 24 { 3 } else { 4 }
}

/// The hyphenated lowercase text of a UUID: 32 hex digits in groups of
/// 8-4-4-4-12, separated by `-`.
pub open spec fn uuid_text(id: u128) -> Seq<char> {
    Seq::new(36, |p: int| if p == 8 || p == 13 || p == 18 || p == 23 { '-' } else { hex_digit(nibble(id, p - hyphens_before(p))) })
}

/// The version field of a UUID (bits 76 to 79).
pub open spec fn uuid_version(id: u128) -> u128 {
    (id >> 76u128) & 15
}

/// Ticks of 100 ns between the Gregorian epoch (15 October 1582) and the
/// Unix epoch.
pub open spec fn ticks_between_epochs() -> int {
    0x01B2_1DD2_1381_4000
}

/// The 60-bit Gregorian tick count of a time-based UUID: for version 1 the
/// high, middle and low time fields stand in reverse order, for version 6 in
/// order.
pub open spec fn gregorian_ticks(id: u128) -> int {
    if uuid_version(id) == 1 {
        ((id >> 64u128) & 0xFFF) * 0x1_0000_0000_0000 + ((id >> 80u128) & 0xFFFF) * 0x1_0000_0000 + (id >> 96u128)
    } else {
        (id >> 80u128) * 0x1000 + ((id >> 64u128) & 0xFFF)
    }
}

/// What `Uuid::get_timestamp` followed by `Timestamp::to_unix` gives for
/// `id`: seconds and nanoseconds since the Unix epoch. Version 7 carries
/// milliseconds in its 48 leading bits; versions 1 and 6 carry Gregorian
/// ticks, taken back to the Unix epoch with 64-bit wrapping subtraction;
/// other versions carry no time.
pub open spec fn uuid_unix_time(id: u128) -> Option<(u64, u32)> {
    if uuid_version(id) == 7 {
        Some((((id >> 80u128) / 1000) as u64, (((id >> 80u128) % 1000) * 1_000_000) as u32))
    } else if uuid_version(id) == 1 || uuid_version(id) == 6 {
        let w = (gregorian_ticks(id) - ticks_between_epochs()) % 0x1_0000_0000_0000_0000;
        Some(((w / 10_000_000) as u64, ((w % 10_000_000) * 100) as u32))
    } else {
        None
    }
}

/// The hyphenated lowercase text of `id`.
///
/// Calls `uuid::Uuid::from_u128(id).to_string()`; the contract states the
/// format that the crate's `Display` for `Uuid` writes (`LowerHex` of the
/// hyphenated form).
#[verifier::external_body]
pub(crate) fn uuid_string(id: u128) -> (s: String)
    ensures
        s@ == uuid_text(id),
{
    uuid::Uuid::from_u128(id).to_string()
}

/// The creation time recorded in `id`, when it is a time-based UUID.
///
/// Calls `uuid::Uuid::get_timestamp` on `Uuid::from_u128(id)` and reads the
/// timestamp with `Timestamp::to_unix`; the contract states what the crate's
/// source computes (see `uuid_unix_time`).
#[verifier::external_body]
pub(crate) fn uuid_timestamp(id: u128) -> (t: Option<(u64, u32)>)
    ensures
        t == uuid_unix_time(id),
{
    match uuid::Uuid::from_u128(id).get_timestamp() {
        Some(ts) => Some(ts.to_unix()),
        None => None,
    }
}

/// The first `n` characters of the hyphenated text of `id`, as listings
/// show short ids (the whole text for `n == 36`).
pub fn id_prefix(id: u128, n: usize) -> (s: String)
    requires
        n <= 36,
    ensures
        s@ == uuid_text(id).take(n as int),
{
    let full = uuid_string(id);
    let s = String::from_str(full.as_str().substring_char(0, n));
    assert(s@ =~= uuid_text(id).take(n as int));
    s
}

/// Milliseconds since the epoch of a `(seconds, nanoseconds)` time, as notes
/// report their creation time.
pub open spec fn millis_of(t: (u64, u32)) -> int {
    t.0 * 1000 + t.1 / 1_000_000
}

/// Converts a time to milliseconds since the epoch.
pub fn unix_millis(t: (u64, u32)) -> (ms: u64)
    requires
        t.0 <= 1844674407370,
    ensures
        ms == millis_of(t),
{
    t.0 * 1000 + (t.1 / 1_000_000) as u64
}

} // verus!
