use vstd::prelude::*;
use vstd::utf8::encode_utf8;
use crate::calendar::zone::known_zone;
use crate::calendar::zone::utc_stamp_in_zone;
use crate::calendar::zone::zone_is_known;
use crate::calendar::zone::zoned_time_text;
use crate::text::chars::byte_len;
use crate::text::chars::chars_of;
use crate::text::chars::extend_chars;
use crate::text::chars::slice_of;
use crate::text::chars::text_of;
use crate::text::number::all_digits;
use crate::text::number::is_ascii_digit;
use crate::text::number::is_digit;
use crate::text::split::has_char;
use crate::text::split::holds;

verus! {

/// What was made of the date field of a feed.
#[derive(Debug, PartialEq, Eq)]
pub enum DateField {
    /// A date and time, given in UTC and shown here in local time as
    /// `YYYY-MM-DD HH:MM:SS`.
    Local(String),
    /// A date without time, `YYYY-MM-DD`, made of the eight digits that
    /// the field starts with.
    Day(String),
    /// The field as it was given: nothing could be made of it.
    Unparsed(String),
}

/// What a `DateField` holds, as plain text.
pub enum DateFieldView {
    Local(Seq<char>),
    Day(Seq<char>),
    Unparsed(Seq<char>),
}

impl View for DateField {
    type V = DateFieldView;

    open spec fn view(&self) -> DateFieldView {
        match self {
            DateField::Local(text) => DateFieldView::Local(text@),
            DateField::Day(text) => DateFieldView::Day(text@),
            DateField::Unparsed(text) => DateFieldView::Unparsed(text@),
        }
    }
}

/// The zone in which times are shown: the one asked for where it is
/// known, UTC where it is not.
pub open spec fn zone_or_utc(timezone: Seq<char>, known: bool) -> Seq<char> {
    if known {
        timezone
    } else {
        "UTC"@
    }
}

/// The zone in which times are shown: the one asked for where the time zone
/// database knows it, UTC where it does not.
pub open spec fn display_zone(timezone: Seq<char>) -> Seq<char> {
    zone_or_utc(timezone, zone_is_known(timezone))
}

/// Whether `s` starts with a date: eight digits.
pub open spec fn starts_with_date(s: Seq<char>) -> bool {
    s.len() >= 8 && all_digits(s.take(8))
}

/// The first eight characters of `s` as a date, `YYYY-MM-DD`: four, two
/// and two of them with a hyphen between.
pub open spec fn date_only_text(s: Seq<char>) -> Seq<char> {
    s.subrange(0, 4) + seq!['-'] + s.subrange(4, 6) + seq!['-'] + s.subrange(6, 8)
}

/// The UTC date and time that the date field `s` spells, if it spells one:
/// a field of at least 15 bytes that holds a `T` and ends in the UTC marker
/// `Z` is taken for one, and what stands before the marker is the date and
/// time. A field without the marker spells none.
pub open spec fn utc_stamp_of(s: Seq<char>) -> Option<Seq<char>> {
    if encode_utf8(s).len() >= 15 && holds(s, 'T') && s.len() > 0 && s.last() == 'Z' {
        Some(s.drop_last())
    } else {
        None
    }
}

/// What is made of the date field `s`, where `shown` is its local date
/// and time, if it has one: that date and time; else the date that `s`
/// starts with; else, where it starts with none, `s` as it is.
pub open spec fn field_of(s: Seq<char>, shown: Option<Seq<char>>) -> DateFieldView {
    match shown {
        Some(text) => DateFieldView::Local(text),
        None => if starts_with_date(s) {
            DateFieldView::Day(date_only_text(s))
        } else {
            DateFieldView::Unparsed(s)
        },
    }
}

/// The local date and time in `zone` of the date field `s`, where `s`
/// spells a UTC date and time and chrono reads it as one.
pub open spec fn local_time_of(s: Seq<char>, zone: Seq<char>) -> Option<Seq<char>> {
    match utc_stamp_of(s) {
        Some(stamp) => zoned_time_text(stamp, zone),
        None => None,
    }
}

/// What is made of the date field `s` of a feed, for times shown in `zone`.
///
/// A field with the UTC marker is a UTC date and time: it is shown as
/// local time in `zone`, if chrono can read what stands before the marker.
/// Any other field that starts with eight digits is a date, and any other
/// is kept as it is.
pub open spec fn date_field(s: Seq<char>, zone: Seq<char>) -> DateFieldView {
    field_of(s, local_time_of(s, zone))
}

/// The text of `field`, whatever its kind.
pub open spec fn field_text(field: DateFieldView) -> Seq<char> {
    match field {
        DateFieldView::Local(text) => text,
        DateFieldView::Day(text) => text,
        DateFieldView::Unparsed(text) => text,
    }
}

/// The display form of the date field `s`, for times shown in `zone`.
pub open spec fn display_date(s: Seq<char>, zone: Seq<char>) -> Seq<char> {
    field_text(date_field(s, zone))
}

/// The name of the zone in which times are shown, where `known` says
/// whether the zone asked for is known.
pub fn zone_name_or_utc(timezone: &str, known: bool) -> (zone: String)
    ensures
        zone@ == zone_or_utc(timezone@, known),
{
    if known {
        timezone.to_owned()
    } else {
        "UTC".to_owned()
    }
}

/// The name of the zone in which times are shown: `timezone` where the
/// time zone database has a zone of that name, `UTC` where it has none.
pub fn resolve_zone(timezone: &str) -> (zone: String)
    ensures
        zone@ == display_zone(timezone@),
{
    zone_name_or_utc(timezone, known_zone(timezone))
}

/// The date `YYYY-MM-DD` made of the eight digits that `date_str` starts
/// with, where it starts with eight digits.
fn date_only(date_str: &str) -> (text: Option<String>)
    ensures
        match text {
            Some(day) => starts_with_date(date_str@) && day@ == date_only_text(date_str@),
            None => !starts_with_date(date_str@),
        },
{
    let chars = chars_of(date_str);
    if chars.len() < 8 {
        return None;
    }
    let mut i: usize = 0;
    while i < 8
        invariant
            i <= 8 <= chars.len(),
            chars@ == date_str@,
            forall|k: int| 0 <= k < i ==> is_digit(#[trigger] chars@[k]),
        decreases 8 - i,
    {
        if !is_ascii_digit(chars[i]) {
            assert(chars@.take(8)[i as int] == chars@[i as int]);
            return None;
        }
        i += 1;
    }
    assert forall|k: int| 0 <= k < 8 implies is_digit(#[trigger] chars@.take(8)[k]) by {
        assert(chars@.take(8)[k] == chars@[k]);
    }
    let mut out: Vec<char> = slice_of(&chars, 0, 4);
    out.push('-');
    extend_chars(&mut out, &slice_of(&chars, 4, 6));
    out.push('-');
    extend_chars(&mut out, &slice_of(&chars, 6, 8));
    Some(text_of(&out))
}

impl DateField {
    /// The text of the field, whatever its kind.
    pub fn into_text(self) -> (text: String)
        ensures
            text@ == field_text(self@),
    {
        match self {
            DateField::Local(text) => text,
            DateField::Day(text) => text,
            DateField::Unparsed(text) => text,
        }
    }
}

/// The UTC date and time that the date field `date_str` spells, if it
/// spells one, in the form in which chrono is asked to read it: the field
/// without the UTC marker that ends it.
pub fn utc_stamp(date_str: &str) -> (stamp: Option<String>)
    ensures
        match stamp {
            Some(text) => utc_stamp_of(date_str@) == Some(text@),
            None => utc_stamp_of(date_str@) is None,
        },
{
    let chars = chars_of(date_str);
    let n: usize = chars.len();
    if byte_len(date_str) >= 15 && has_char(&chars, 'T') && n > 0 && chars[n - 1] == 'Z' {
        Some(text_of(&slice_of(&chars, 0, n - 1)))
    } else {
        None
    }
}

/// What is made of the date field `date_str`, where `shown` is its local
/// date and time, if it has one.
pub fn field_from(date_str: &str, shown: Option<String>) -> (field: DateField)
    ensures
        field@ == field_of(
            date_str@,
            match shown {
                Some(text) => Some(text@),
                None => None,
            },
        ),
{
    match shown {
        Some(text) => DateField::Local(text),
        None => match date_only(date_str) {
            Some(day) => DateField::Day(day),
            None => DateField::Unparsed(date_str.to_owned()),
        },
    }
}

/// What is made of the date field `date_str`, for times shown in the zone
/// named `zone`: a local date and time, a date, or the field as it is.
pub fn read_date(date_str: &str, zone: &str) -> (field: DateField)
    ensures
        field@ == date_field(date_str@, zone@),
{
    let shown = match utc_stamp(date_str) {
        Some(stamp) => utc_stamp_in_zone(stamp.as_str(), zone),
        None => None,
    };
    field_from(date_str, shown)
}

/// The display form of the date field `date_str`, for times shown in the
/// zone named `zone`.
pub fn date_in_zone(date_str: &str, zone: &str) -> (text: String)
    ensures
        text@ == display_date(date_str@, zone@),
{
    read_date(date_str, zone).into_text()
}

/// The display form of the date field `date_str`, for times shown in the
/// zone named `timezone`, or in UTC where the time zone database has no
/// zone of that name.
pub fn parse_ics_date(date_str: &str, timezone: &str) -> (text: String)
    ensures
        text@ == display_date(date_str@, display_zone(timezone@)),
{
    let zone = resolve_zone(timezone);
    date_in_zone(date_str, zone.as_str())
}

} // verus!
