use vstd::prelude::*;
use vstd::string::*;

verus! {

/// The instant, in seconds since the Unix epoch, that chrono reads from
/// `s` under the strftime-style format `fmt` (the wall clock taken as
/// UTC), if `s` parses under that format.
pub uninterp spec fn chrono_epoch_of(fmt: Seq<char>, s: Seq<char>) -> Option<i64>;

/// Relies on chrono's `NaiveDateTime::parse_from_str` followed by
/// `DateTime::<Utc>::timestamp`: whether the text parses under the format,
/// and which instant it denotes, depend on the two strings alone.
#[verifier::external_body]
fn chrono_parse_utc(s: &str, fmt: &str) -> (r: Option<i64>)
    ensures
        r == chrono_epoch_of(fmt@, s@),
{
    match chrono::NaiveDateTime::parse_from_str(s, fmt) {
        Ok(dt) => Some(dt.and_utc().timestamp()),
        Err(_) => None,
    }
}

/// 12-hour comma-separated format, as in
/// `"Monday, December 19, 2022 12:50:19 PM"`.
pub open spec fn fmt_12h() -> Seq<char> {
    "%A, %B %d, %Y %l:%M:%S %p"@
}

/// 24-hour day-first format, as in `"Monday, 19 December 2022 22:29:07"`.
pub open spec fn fmt_24h() -> Seq<char> {
    "%A, %d %B %Y %H:%M:%S"@
}

/// The normalized timestamp: the first accepted format that parses wins,
/// and an unparseable date is the soft default `0`.
pub open spec fn spec_parse_datetime(s: Seq<char>) -> i64 {
    match chrono_epoch_of(fmt_12h(), s) {
        Some(t) => t,
        None => match chrono_epoch_of(fmt_24h(), s) {
            Some(t) => t,
            None => 0,
        },
    }
}

/// As `parse_datetime`, and also says whether neither format parsed (the
/// returned instant is then the soft default `0`).
pub fn parse_datetime_checked(datetime_string: String) -> (r: (i64, bool))
    ensures
        r.0 == spec_parse_datetime(datetime_string@),
        r.1 == (chrono_epoch_of(fmt_12h(), datetime_string@) is None && chrono_epoch_of(
            fmt_24h(),
            datetime_string@,
        ) is None),
{
    match chrono_parse_utc(datetime_string.as_str(), "%A, %B %d, %Y %l:%M:%S %p") {
        Some(t) => (t, false),
        None => match chrono_parse_utc(datetime_string.as_str(), "%A, %d %B %Y %H:%M:%S") {
            Some(t) => (t, false),
            None => (0, true),
        },
    }
}

/// Normalizes a free-form date/time string to UTC epoch seconds, trying
/// the two accepted formats in order; returns `0` when neither parses.
pub fn parse_datetime(datetime_string: String) -> (r: i64)
    ensures
        r == spec_parse_datetime(datetime_string@),
{
    let (t, _) = parse_datetime_checked(datetime_string);
    t
}

} // verus!
