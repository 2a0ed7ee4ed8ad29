use chrono::TimeZone;
use vstd::prelude::*;

verus! {

/// The text that chrono writes for an instant, given in milliseconds since
/// the Unix epoch, under the pattern `%Y-%m-%dT%H:%M:%S%.3fZ`.
pub uninterp spec fn timestamp_text(millis: i64) -> Seq<char>;

/// The instant, in milliseconds since the Unix epoch, that chrono reads from a
/// text under the pattern `%Y-%m-%dT%H:%M:%S%.fZ`, if the text fits it.
pub uninterp spec fn timestamp_reading(s: Seq<char>) -> Option<i64>;

/// Calls `bson::DateTime::to_chrono` and chrono's `format`: the instant as
/// year, month, day, hour, minute, second and three digits of milliseconds,
/// with a final `Z`. The result is the text that `timestamp_text` names.
#[verifier::external_body]
pub(crate) fn format_timestamp(millis: i64) -> (r: String)
    ensures
        r@ == timestamp_text(millis),
{
    bson::DateTime::from_millis(millis).to_chrono().format("%Y-%m-%dT%H:%M:%S%.3fZ").to_string()
}

/// Calls `chrono::NaiveDateTime::parse_from_str` and takes the result as a
/// time in UTC. The result is what `timestamp_reading` names.
#[verifier::external_body]
pub(crate) fn parse_timestamp(s: &str) -> (r: Option<i64>)
    ensures
        r == timestamp_reading(s@),
{
    match chrono::NaiveDateTime::parse_from_str(s, "%Y-%m-%dT%H:%M:%S%.fZ") {
        Ok(t) => Some(bson::DateTime::from_chrono(chrono::Utc.from_utc_datetime(&t)).timestamp_millis()),
        Err(_) => None,
    }
}

/// Calls `fuzzy_datetime::iso_fuzzy_string_to_datetime`, which completes a
/// partial date and time in year-month-day order and reads it. It expands a
/// two-digit year by the current year, so nothing is promised of the result.
/// The text must be ASCII: the outside function cuts it at byte positions.
#[verifier::external_body]
pub(crate) fn fuzzy_timestamp(s: &str) -> (r: Option<i64>)
    requires
        s.is_ascii(),
{
    match fuzzy_datetime::iso_fuzzy_string_to_datetime(s) {
        Ok(t) => Some(bson::DateTime::from_chrono(chrono::Utc.from_utc_datetime(&t)).timestamp_millis()),
        Err(_) => None,
    }
}

/// Calls `chrono::Utc::now`: the current time in milliseconds since the Unix
/// epoch. Nothing is promised of it.
#[verifier::external_body]
pub(crate) fn now_millis() -> i64 {
    chrono::Utc::now().timestamp_millis()
}

/// Whether the text of an instant reads as that instant again.
pub fn reads_back(millis: i64) -> (r: bool)
    ensures
        r == (timestamp_reading(timestamp_text(millis)) == Some(millis)),
{
    let text = format_timestamp(millis);
    match parse_timestamp(text.as_str()) {
        Some(read) => read == millis,
        None => false,
    }
}

} // verus!
