use vstd::prelude::*;

verus! {

/// The latest instant that an `Expires` date is written for: 9999-12-31 23:59:59 UTC,
/// in seconds since the Unix epoch.
pub const MAX_INSTANT: i64 = 253402300799;

/// The instant, in seconds since the epoch, that `s` names when read with the
/// `strptime` format `fmt`, if it can be read so.
pub uninterp spec fn date_secs_of(s: Seq<char>, fmt: Seq<char>) -> Option<i64>;

/// The instant `secs` seconds after the epoch, written as an RFC 1123 date in GMT.
pub uninterp spec fn http_date_of(secs: i64) -> Seq<char>;

/// The date formats that an `Expires` value is read with: RFC 1123, RFC 850 and asctime.
pub open spec fn is_date_format(fmt: Seq<char>) -> bool {
    fmt == "%a, %d %b %Y %T %Z"@ || fmt == "%A, %d-%b-%y %T %Z"@ || fmt == "%c"@
}

/// Relies on `time::strptime` to read `s` under `fmt` and on `Tm::to_timespec` for the
/// instant it names. For these formats, which hold no `%z`, `strptime` leaves the UTC
/// offset at zero, so the instant depends on the two strings alone.
#[verifier::external_body]
pub(crate) fn parse_date(s: &str, fmt: &str) -> (r: Option<i64>)
    requires
        is_date_format(fmt@),
    ensures
        r == date_secs_of(s@, fmt@),
{
    match time::strptime(s, fmt) {
        Ok(tm) => Some(tm.to_timespec().sec),
        Err(_) => None,
    }
}

/// Relies on `time::get_time`: the current wall-clock time, in whole seconds since the epoch.
#[verifier::external_body]
pub(crate) fn now_secs() -> (r: i64) {
    time::get_time().sec
}

/// Relies on `time::at_utc` and `Tm::rfc822`: the UTC calendar date of an instant, written
/// as `Tue, 21 May 2019 21:12:11 GMT`. `at_utc` panics on instants whose year does not fit
/// the C `tm` structure, so the instant is held between the epoch and the year 9999.
#[verifier::external_body]
pub(crate) fn http_date(secs: i64) -> (r: String)
    requires
        0 <= secs <= MAX_INSTANT,
    ensures
        r@ == http_date_of(secs),
{
    format!("{}", time::at_utc(time::Timespec::new(secs, 0)).rfc822())
}

} // verus!
