//! Dates of snapshots, kept as RFC 3339 text in UTC.
use vstd::prelude::*;

verus! {

/// The text ends with the UTC offset `+00:00`, as chrono's `to_rfc3339`
/// writes it for a date in UTC.
pub open spec fn is_utc_text(s: Seq<char>) -> bool {
    s.len() >= 6 && s.subrange(s.len() - 6, s.len() as int) == "+00:00"@
}

/// What chrono makes of a text read as an RFC 3339 date: the same moment
/// written in UTC by `to_rfc3339`, or `None` where the text is not RFC 3339.
pub uninterp spec fn rfc3339_in_utc(text: Seq<char>) -> Option<Seq<char>>;

/// What chrono writes for the moment `secs` seconds and `nanos` nanoseconds
/// after the Unix epoch: `DateTime::<Utc>::from_timestamp(secs, nanos)` written
/// by `to_rfc3339`, or `None` where chrono has no such date.
pub uninterp spec fn utc_text_of(secs: i64, nanos: u32) -> Option<Seq<char>>;

/// The time elapsed since the Unix epoch, as whole seconds and the
/// nanoseconds beyond them: `std::time::SystemTime::now()` measured with
/// `duration_since(UNIX_EPOCH)`; `None` where the clock reads earlier than the
/// epoch. The value depends on the clock, so nothing is claimed of it.
#[verifier::external_body]
pub(crate) fn unix_time_now() -> Option<(u64, u32)> {
    match std::time::SystemTime::now().duration_since(std::time::UNIX_EPOCH) {
        Ok(d) => Some((d.as_secs(), d.subsec_nanos())),
        Err(_) => None,
    }
}

/// `r` is an outcome that the system clock can give: a reading that
/// `unix_time_now` may return. Nothing more is known of such readings, so a
/// reading taken there is told apart from one made up elsewhere only by this.
pub closed spec fn clock_gives(r: Option<(u64, u32)>) -> bool {
    call_ensures(unix_time_now, (), r)
}

/// What a call of `unix_time_now` returned is an outcome of the clock.
pub(crate) proof fn lemma_read_from_clock(r: Option<(u64, u32)>)
    requires
        call_ensures(unix_time_now, (), r),
    ensures
        clock_gives(r),
{
}

/// `chrono::DateTime::<Utc>::from_timestamp(secs, nanos)` written by
/// `to_rfc3339`. The outcome is named `utc_text_of`; of it the contract claims
/// only what chrono's `write_rfc3339` shows for a date in UTC: the text ends
/// with `+00:00`.
#[verifier::external_body]
fn rfc3339_of_unix(secs: i64, nanos: u32) -> (r: Option<String>)
    ensures
        r is Some <==> utc_text_of(secs, nanos) is Some,
        r matches Some(t) ==> utc_text_of(secs, nanos) == Some(t@) && is_utc_text(t@),
{
    match chrono::DateTime::<chrono::Utc>::from_timestamp(secs, nanos) {
        Some(d) => Some(d.to_rfc3339()),
        None => None,
    }
}

/// The RFC 3339 text in UTC of a clock reading of `secs` seconds and `nanos`
/// nanoseconds after the Unix epoch, or `None` where chrono has no such date
/// (the seconds do not fit an `i64`, or chrono cannot represent the moment).
pub open spec fn reading_text(secs: u64, nanos: u32) -> Option<Seq<char>> {
    if secs <= i64::MAX as u64 {
        utc_text_of(secs as i64, nanos)
    } else {
        None
    }
}

/// The RFC 3339 text in UTC of a clock reading.
pub fn date_from_reading(secs: u64, nanos: u32) -> (r: Option<String>)
    ensures
        r is Some <==> reading_text(secs, nanos) is Some,
        r matches Some(t) ==> reading_text(secs, nanos) == Some(t@) && is_utc_text(t@),
{
    if secs <= i64::MAX as u64 {
        rfc3339_of_unix(secs as i64, nanos)
    } else {
        None
    }
}

/// The current time as RFC 3339 text in UTC: the text of the reading just
/// taken from the clock; `None` exactly where the clock failed or its reading
/// has no such text (earlier than the Unix epoch, later than chrono can write).
pub fn now_rfc3339() -> (r: Option<String>)
    ensures
        r matches Some(t) ==> is_utc_text(t@),
        r matches Some(t) ==> exists|secs: u64, nanos: u32|
            #![trigger reading_text(secs, nanos)]
            clock_gives(Some((secs, nanos))) && reading_text(secs, nanos) == Some(t@),
        r is None ==> clock_gives(None) || exists|secs: u64, nanos: u32|
            #![trigger reading_text(secs, nanos)]
            clock_gives(Some((secs, nanos))) && reading_text(secs, nanos) is None,
{
    let reading = unix_time_now();
    proof {
        lemma_read_from_clock(reading);
    }
    match reading {
        Some((secs, nanos)) => date_from_reading(secs, nanos),
        None => None,
    }
}

/// `chrono::DateTime::parse_from_rfc3339(text)`, moved to UTC
/// (`with_timezone(&Utc)`) and written back with `to_rfc3339`. The outcome is
/// named `rfc3339_in_utc`; of it the contract claims only that a date
/// written back ends with `+00:00`.
#[verifier::external_body]
fn parse_rfc3339_utc(text: &str) -> (r: Option<String>)
    ensures
        r is Some <==> rfc3339_in_utc(text@) is Some,
        r matches Some(s) ==> rfc3339_in_utc(text@) == Some(s@) && is_utc_text(s@),
{
    match chrono::DateTime::parse_from_rfc3339(text) {
        Ok(d) => Some(d.with_timezone(&chrono::Utc).to_rfc3339()),
        Err(_) => None,
    }
}

/// A stored date, read as RFC 3339 and written again in UTC; `None` where
/// the text is not an RFC 3339 date.
pub fn parse_datetime(value: &str) -> (r: Option<String>)
    ensures
        match rfc3339_in_utc(value@) {
            Some(t) => r matches Some(s) && s@ == t && is_utc_text(t),
            None => r is None,
        },
{
    parse_rfc3339_utc(value)
}

} // verus!
