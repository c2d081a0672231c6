//! Instants as milliseconds since the Unix epoch, and their text.
use vstd::prelude::*;

use crate::numbers::saturated;
use crate::text::text_option;

verus! {

/// The instant that a text in the form of RFC 3339 names, in milliseconds
/// since the Unix epoch; nothing for any other text.
pub uninterp spec fn rfc3339_millis(text: Seq<char>) -> Option<i64>;

/// The text in the form of RFC 3339, with milliseconds and in UTC, of an
/// instant; nothing for an instant outside the calendar.
pub uninterp spec fn millis_rfc3339(millis: i64) -> Option<Seq<char>>;

/// Reads an instant with `chrono::DateTime::parse_from_rfc3339` and gives its
/// `timestamp_millis`. Both depend on the text alone, and the result is named.
#[verifier::external_body]
fn parse_rfc3339(text: &str) -> (r: Option<i64>)
    ensures
        r == rfc3339_millis(text@),
{
    chrono::DateTime::parse_from_rfc3339(text).ok().map(|date| date.timestamp_millis())
}

/// Writes an instant with `chrono::DateTime::from_timestamp_millis` and
/// `to_rfc3339_opts` with milliseconds and `Z`. Both depend on the number
/// alone, and the result is named.
#[verifier::external_body]
fn format_rfc3339(millis: i64) -> (r: Option<String>)
    ensures
        text_option(r) == millis_rfc3339(millis),
{
    chrono::DateTime::from_timestamp_millis(millis)
        .map(|date| date.to_rfc3339_opts(chrono::SecondsFormat::Millis, true))
}

/// A reading of the system's clock.
#[verifier::external_type_specification]
#[verifier::external_body]
pub struct ExSystemTime(std::time::SystemTime);

/// `std::time::SystemTime::now`. Of the time nothing is stated.
#[verifier::external_body]
fn system_time() -> (r: std::time::SystemTime)
{
    std::time::SystemTime::now()
}

/// `std::time::SystemTime::duration_since` with the Unix epoch; nothing where
/// the clock stands before it. Of the span nothing is stated: it rests on the
/// time.
#[verifier::external_body]
fn since_epoch(time: &std::time::SystemTime) -> (r: Option<std::time::Duration>)
{
    time.duration_since(std::time::UNIX_EPOCH).ok()
}

/// `std::time::Duration::as_millis`. Of the number nothing is stated: it rests
/// on the time.
#[verifier::external_body]
fn whole_millis(span: &std::time::Duration) -> (r: u128)
{
    span.as_millis()
}

/// The time since the Unix epoch in milliseconds; nothing where the clock
/// stands before the epoch.
fn elapsed_since_epoch() -> (r: Option<u128>)
{
    match since_epoch(&system_time()) {
        Some(span) => Some(whole_millis(&span)),
        None => None,
    }
}

/// The reading of the clock for a time since the epoch: zero before it, and
/// the largest number where the time does not fit.
pub open spec fn clock_reading(elapsed: Option<u128>) -> int {
    match elapsed {
        Some(millis) => saturated(millis as int),
        None => 0,
    }
}

/// The reading of the clock for a time since the epoch.
pub fn millis_since_epoch(elapsed: Option<u128>) -> (r: i64)
    ensures
        r == clock_reading(elapsed),
{
    match elapsed {
        Some(millis) => if millis > 9_223_372_036_854_775_807u128 {
            i64::MAX
        } else {
            millis as i64
        },
        None => 0,
    }
}

/// The present instant in milliseconds since the Unix epoch, which is not
/// negative.
pub fn now_millis() -> (r: i64)
    ensures
        exists|elapsed: Option<u128>| r == #[trigger] clock_reading(elapsed),
        r >= 0,
{
    let elapsed: Option<u128> = elapsed_since_epoch();
    millis_since_epoch(elapsed)
}

/// The instant that an optional text names.
pub open spec fn date_millis(value: Option<Seq<char>>) -> Option<i64> {
    match value {
        Some(text) => rfc3339_millis(text),
        None => None,
    }
}

/// The text of an optional instant.
pub open spec fn iso_text(value: Option<i64>) -> Option<Seq<char>> {
    match value {
        Some(millis) => millis_rfc3339(millis),
        None => None,
    }
}

/// The instant that a date of the GitHub API names.
pub fn github_date_millis(value: Option<&str>) -> (r: Option<i64>)
    ensures
        r == date_millis(
            match value {
                Some(text) => Some(text@),
                None => None,
            },
        ),
{
    match value {
        Some(text) => parse_rfc3339(text),
        None => None,
    }
}

/// The text of an instant that may be missing.
pub fn iso_optional(value: Option<i64>) -> (r: Option<String>)
    ensures
        text_option(r) == iso_text(value),
{
    match value {
        Some(millis) => format_rfc3339(millis),
        None => None,
    }
}

/// The text of an instant: empty for one outside the calendar.
pub fn iso(value: i64) -> (r: String)
    ensures
        r@ == match millis_rfc3339(value) {
            Some(text) => text,
            None => Seq::empty(),
        },
{
    match format_rfc3339(value) {
        Some(text) => text,
        None => String::new(),
    }
}

}
