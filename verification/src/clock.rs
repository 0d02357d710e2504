//! Time stamps, through chrono.
use vstd::prelude::*;

verus! {

/// The RFC 3339 text (whole seconds, `Z` suffix) of a Unix time in seconds,
/// as chrono renders it; a function of the seconds alone.
pub uninterp spec fn spec_rfc3339_secs(secs: i64) -> Option<Seq<char>>;

/// chrono `DateTime::from_timestamp(secs, 0)` rendered with
/// `to_rfc3339_opts(SecondsFormat::Secs, true)`; `None` where chrono has no
/// date for `secs`. The contract only names the result.
#[verifier::external_body]
pub fn rfc3339_from_secs(secs: i64) -> (r: Option<String>)
    ensures
        match r {
            Some(s) => spec_rfc3339_secs(secs) == Some(s@),
            None => spec_rfc3339_secs(secs) is None,
        },
{
    chrono::DateTime::from_timestamp(secs, 0).map(|dt| dt.to_rfc3339_opts(chrono::SecondsFormat::Secs, true))
}

/// chrono `Utc::now()` as whole Unix seconds. The value is the clock's; what
/// is stated is that chrono has a date for it (`Utc::now` builds a valid
/// date-time from the system clock, so its seconds render).
#[verifier::external_body]
pub(crate) fn now_secs() -> (r: i64)
    ensures
        spec_rfc3339_secs(r) is Some,
{
    chrono::Utc::now().timestamp()
}

/// chrono `Utc::now()` as Unix milliseconds. Nothing is stated of the value:
/// it is the clock's.
#[verifier::external_body]
pub(crate) fn now_millis() -> (r: i64) {
    chrono::Utc::now().timestamp_millis()
}

/// The text is chrono's RFC 3339 rendering of some clock reading.
pub open spec fn is_clock_text(t: Seq<char>) -> bool {
    exists|secs: i64| spec_rfc3339_secs(secs) == Some(t)
}

/// The current time as RFC 3339 text with whole seconds.
pub fn now_iso() -> (r: String)
    ensures
        is_clock_text(r@),
{
    let secs = now_secs();
    match rfc3339_from_secs(secs) {
        Some(s) => s,
        None => String::new(),
    }
}

} // verus!
