use vstd::prelude::*;
use std::str::FromStr;
use chrono::DateTime;
use chrono::NaiveDateTime;
use chrono::Utc;
use chrono_tz::Tz;

verus! {

/// Whether the time zone database inside chrono-tz lists a zone under
/// exactly this name.
pub uninterp spec fn zone_is_known(name: Seq<char>) -> bool;

/// The local date and time, as `YYYY-MM-DD HH:MM:SS`, that chrono and
/// chrono-tz give in the zone named `zone` for the UTC date and time that
/// `stamp` spells in the compact form `YYYYMMDDTHHMMSS`. `None` where chrono
/// does not read `stamp` as such a date and time, or where no zone has that
/// name.
pub uninterp spec fn zoned_time_text(stamp: Seq<char>, zone: Seq<char>) -> Option<Seq<char>>;

/// `chrono_tz::Tz::from_str`: looks `name` up among the names of the time
/// zone database. The result is named, not stated: it is whatever that table
/// holds.
#[verifier::external_body]
pub(crate) fn known_zone(name: &str) -> (known: bool)
    ensures
        known == zone_is_known(name@),
{
    Tz::from_str(name).is_ok()
}

/// chrono: `NaiveDateTime::parse_from_str` with `%Y%m%dT%H%M%S`, the result
/// taken as UTC by `DateTime::from_naive_utc_and_offset`, moved to the zone
/// that `Tz::from_str` finds by `DateTime::with_timezone`, and written out by
/// `DateTime::format` with `%Y-%m-%d %H:%M:%S`. The result is named, not
/// stated: it depends on chrono's reading of the stamp and on the rules of
/// the zone, and on nothing but the two arguments.
#[verifier::external_body]
pub(crate) fn utc_stamp_in_zone(stamp: &str, zone: &str) -> (shown: Option<String>)
    ensures
        match shown {
            Some(text) => zoned_time_text(stamp@, zone@) == Some(text@),
            None => zoned_time_text(stamp@, zone@) is None,
        },
{
    match (Tz::from_str(zone), NaiveDateTime::parse_from_str(stamp, "%Y%m%dT%H%M%S")) {
        (Ok(tz), Ok(naive)) => {
            let utc = DateTime::<Utc>::from_naive_utc_and_offset(naive, Utc);
            Some(utc.with_timezone(&tz).format("%Y-%m-%d %H:%M:%S").to_string())
        },
        _ => None,
    }
}

} // verus!
