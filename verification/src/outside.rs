//! Calls into the outside crates: the current time and calendar dates
//! (chrono), random numbers (rand) and fresh identifiers (uuid). What rests
//! on the clock or on chance is fixed by nothing beyond the bounds stated.
use vstd::prelude::*;

verus! {

/// `chrono::Utc::now().timestamp()`: the current UNIX time in seconds.
/// It depends on the clock, so no clause fixes its value; chrono computes it
/// from an `i32` count of days and the seconds of the day, which bounds it by
/// 2e14 either way.
#[verifier::external_body]
pub fn current_timestamp() -> (r: i64)
    ensures
        -200_000_000_000_000 <= r <= 200_000_000_000_000,
{
    chrono::Utc::now().timestamp()
}

/// `rand::Rng::gen_range(&mut rand::thread_rng(), lo..hi)`: a random number
/// in `[lo, hi)`; rand panics on an empty range, hence `lo < hi`.
#[verifier::external_body]
pub fn random_range(lo: i64, hi: i64) -> (r: i64)
    requires
        lo < hi,
    ensures
        lo <= r < hi,
{
    rand::Rng::gen_range(&mut rand::thread_rng(), lo..hi)
}

/// `uuid::Uuid::new_v4().to_string()`: a fresh random identifier; its text
/// is left unstated.
#[verifier::external_body]
pub fn new_uuid() -> (r: String) {
    uuid::Uuid::new_v4().to_string()
}


/// The UTC calendar date of the UNIX time `ts`, written `YYYY-MM-DD` as
/// chrono writes it, or none where chrono has no date for that time.
pub uninterp spec fn utc_date_text(ts: i64) -> Option<Seq<char>>;

/// `chrono::DateTime::from_timestamp(ts, 0)` formatted with `%Y-%m-%d`:
/// the date depends on `ts` alone, and is named by `utc_date_text`.
#[verifier::external_body]
pub fn utc_date(ts: i64) -> (r: Option<String>)
    ensures
        match r {
            Some(s) => utc_date_text(ts) == Some(s@),
            None => utc_date_text(ts) is None,
        },
{
    match chrono::DateTime::from_timestamp(ts, 0) {
        Some(dt) => Some(dt.format("%Y-%m-%d").to_string()),
        None => None,
    }
}


/// `rand::random::<i32>()`: any `i32`, by chance.
#[verifier::external_body]
pub fn random_i32() -> (r: i32) {
    rand::random::<i32>()
}

/// `rand::Rng::gen_ratio(&mut rand::thread_rng(), numerator, denominator)`:
/// true with a chance of `numerator` in `denominator`; always true when they
/// are equal and always false for a numerator of 0. rand panics on a zero
/// denominator and on a numerator above the denominator.
#[verifier::external_body]
pub fn random_ratio(numerator: u32, denominator: u32) -> (r: bool)
    requires
        0 < denominator,
        numerator <= denominator,
    ensures
        numerator == 0 ==> !r,
        numerator == denominator ==> r,
{
    rand::Rng::gen_ratio(&mut rand::thread_rng(), numerator, denominator)
}

/// `rand::random::<u32>()`: any `u32`, by chance.
#[verifier::external_body]
pub fn random_u32() -> (r: u32) {
    rand::random::<u32>()
}

/// `rand::random::<usize>()`: any `usize`, by chance.
#[verifier::external_body]
pub fn random_usize() -> (r: usize) {
    rand::random::<usize>()
}


/// `chrono::Utc::now().timestamp_nanos_opt()`: the current UNIX time in
/// nanoseconds, none outside the years 1677 to 2262. It depends on the
/// clock, so no clause fixes its value.
#[verifier::external_body]
pub fn current_timestamp_nanos() -> (r: Option<i64>) {
    chrono::Utc::now().timestamp_nanos_opt()
}

/// The UTC month, day, hour and minute of the UNIX time `ts`, written
/// `MM-DD HH:MM` as chrono writes it, or none where chrono has no date for it.
pub uninterp spec fn utc_minute_text(ts: i64) -> Option<Seq<char>>;

/// `chrono::DateTime::from_timestamp(ts, 0)` formatted with `%m-%d %H:%M`:
/// the text depends on `ts` alone, and is named by `utc_minute_text`.
#[verifier::external_body]
pub fn utc_minute(ts: i64) -> (r: Option<String>)
    ensures
        match r {
            Some(s) => utc_minute_text(ts) == Some(s@),
            None => utc_minute_text(ts) is None,
        },
{
    match chrono::DateTime::from_timestamp(ts, 0) {
        Some(dt) => Some(dt.format("%m-%d %H:%M").to_string()),
        None => None,
    }
}


/// `chrono::Utc::now().timestamp_millis()`: the current UNIX time in
/// milliseconds. It depends on the clock, so no clause fixes its value;
/// chrono computes it as the seconds (bounded as for `current_timestamp`)
/// times 1000 plus the milliseconds of the second, below 2000 (a leap
/// second counts past 1000).
#[verifier::external_body]
pub fn current_timestamp_millis() -> (r: i64)
    ensures
        -200_000_000_000_000_000 <= r <= 200_000_000_000_002_000,
{
    chrono::Utc::now().timestamp_millis()
}


/// The UTC date, hour and minute of the UNIX time `ts`, written
/// `YYYY-MM-DD HH:MM` as chrono writes it, or none where chrono has no
/// date for it.
pub uninterp spec fn utc_date_minute_text(ts: i64) -> Option<Seq<char>>;

/// `chrono::DateTime::from_timestamp(ts, 0)` formatted with
/// `%Y-%m-%d %H:%M`: the text depends on `ts` alone, and is named by
/// `utc_date_minute_text`.
#[verifier::external_body]
pub fn utc_date_minute(ts: i64) -> (r: Option<String>)
    ensures
        match r {
            Some(s) => utc_date_minute_text(ts) == Some(s@),
            None => utc_date_minute_text(ts) is None,
        },
{
    match chrono::DateTime::from_timestamp(ts, 0) {
        Some(dt) => Some(dt.format("%Y-%m-%d %H:%M").to_string()),
        None => None,
    }
}

} // verus!
