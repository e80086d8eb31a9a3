//! Calendar dates kept as `YYYY-MM-DD` text (cache entries) and read as day
//! numbers, so that two dates can be subtracted.
use vstd::prelude::*;

verus! {

/// The `chrono` format of the dates the caches store.
pub const CACHE_DATE_FORMAT: &'static str = "%Y-%m-%d";

/// The day number (days since 0001-01-01 counted from 1, as chrono's
/// `num_days_from_ce`) of the date `chrono::NaiveDate::parse_from_str`
/// reads from `date` with the format `fmt`, or `None` when it reads none.
pub uninterp spec fn parsed_days(date: Seq<char>, fmt: Seq<char>) -> Option<i64>;

/// `chrono::NaiveDate::parse_from_str(date, fmt)` and then
/// `num_days_from_ce`; which texts parse, and to which day, is chrono's
/// rule and is not spelled out here.
#[verifier::external_body]
fn parse_date_days(date: &str, fmt: &str) -> (r: Option<i64>)
    ensures
        r == parsed_days(date@, fmt@),
{
    match chrono::NaiveDate::parse_from_str(date, fmt) {
        Ok(d) => Some(chrono::Datelike::num_days_from_ce(&d) as i64),
        Err(_) => None,
    }
}

/// The day number of a cache date.
pub open spec fn spec_day_number(date: Seq<char>) -> Option<i64> {
    parsed_days(date, CACHE_DATE_FORMAT@)
}

/// The day number of a `YYYY-MM-DD` date, `None` when it is not one.
pub fn day_number(date: &str) -> (r: Option<i64>)
    ensures
        r == spec_day_number(date@),
{
    parse_date_days(date, CACHE_DATE_FORMAT)
}

/// Whether a cache entry dated `cached_at` is more than `ttl_days` old on
/// the day numbered `today`; an unreadable date counts as stale.
pub open spec fn stale_after(cached_at: Seq<char>, today: i64, ttl_days: int) -> bool {
    match spec_day_number(cached_at) {
        Some(d) => today - d > ttl_days,
        None => true,
    }
}

} // verus!
