//! Trusted wrappers around the outside crates that supply the clock
//! and fresh identifiers. Their results depend on the clock or on
//! randomness, so the contracts state only what holds of every
//! outcome; the verified callers handle any value.

use vstd::prelude::*;

verus! {

/// Relies on chrono's `Utc::now` and `Datelike::year`: the current
/// calendar year in UTC. The clock decides the value, so nothing is
/// promised of it.
#[verifier::external_body]
pub(crate) fn current_year_utc() -> (r: i64) {
    chrono::Datelike::year(&chrono::Utc::now()) as i64
}

/// Relies on chrono's `Utc::now` and `Datelike`: today's year, month
/// and day in UTC. chrono documents the month as 1 through 12 and the
/// day of month as 1 through 31; the clock decides the rest.
#[verifier::external_body]
pub(crate) fn today_utc() -> (r: (i64, i64, i64))
    ensures
        1 <= r.1 <= 12,
        1 <= r.2 <= 31,
{
    let now = chrono::Utc::now().date_naive();
    (
        chrono::Datelike::year(&now) as i64,
        chrono::Datelike::month(&now) as i64,
        chrono::Datelike::day(&now) as i64,
    )
}

/// Relies on chrono's `DateTime::to_rfc3339`: the current instant as
/// an RFC 3339 timestamp. The clock decides the text, so nothing is
/// promised of it.
#[verifier::external_body]
pub(crate) fn now_rfc3339() -> (r: String) {
    chrono::Utc::now().to_rfc3339()
}

/// Relies on uuid's `Uuid::new_v4` and its `Display` form: a fresh
/// random version-4 UUID, hyphenated, which uuid documents as exactly
/// 36 characters. Random, so only the length is promised.
#[verifier::external_body]
pub(crate) fn new_uuid() -> (r: String)
    ensures
        r@.len() == 36,
{
    uuid::Uuid::new_v4().to_string()
}

} // verus!
