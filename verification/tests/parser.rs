use ics_agenda::calendar::date::date_in_zone;
use ics_agenda::calendar::date::field_from;
use ics_agenda::calendar::date::utc_stamp;
use ics_agenda::calendar::date::zone_name_or_utc;
use ics_agenda::calendar::date::parse_ics_date;
use ics_agenda::calendar::date::read_date;
use ics_agenda::calendar::date::DateField;
use ics_agenda::calendar::date::resolve_zone;
use ics_agenda::calendar::event::Event;
use ics_agenda::calendar::ics_parser::parse_ics;
use ics_agenda::calendar::ics_parser::unescape;
use ics_agenda::calendar::ics_parser::EventBuilder;
use ics_agenda::calendar::ics_parser::unescape_ics_text;

fn event(title: &str, start: &str, end: &str, location: &str, description: &str) -> Event {
    Event {
        title: title.to_string(),
        start_date: start.to_string(),
        end_date: end.to_string(),
        location: location.to_string(),
        description: description.to_string(),
        calendar_id: String::new(),
    }
}

#[test]
fn utc_stamp_is_shown_in_new_york_standard_time() {
    assert_eq!(parse_ics_date("20250115T100000Z", "America/New_York"), "2025-01-15 05:00:00");
}

#[test]
fn utc_stamp_is_shown_in_new_york_summer_time() {
    assert_eq!(parse_ics_date("20250715T100000Z", "America/New_York"), "2025-07-15 06:00:00");
}

#[test]
fn stamp_without_utc_mark_gives_its_date_only() {
    assert_eq!(parse_ics_date("20250115T100000", "America/New_York"), "2025-01-15");
    assert_eq!(parse_ics_date("20250115T100000", "Europe/Paris"), "2025-01-15");
    assert_eq!(parse_ics_date("20250115T100000z", "UTC"), "2025-01-15");
}

#[test]
fn conversion_can_change_the_day() {
    assert_eq!(parse_ics_date("20250115T233000Z", "Asia/Tokyo"), "2025-01-16 08:30:00");
}

#[test]
fn only_the_one_utc_mark_at_the_end_is_taken_off() {
    assert_eq!(parse_ics_date("20250115T100000Z", "UTC"), "2025-01-15 10:00:00");
    assert_eq!(parse_ics_date("20250115T100000ZZ", "UTC"), "2025-01-15");
    assert_eq!(parse_ics_date("20250115T100000ZZZ", "UTC"), "2025-01-15");
}

#[test]
fn date_of_eight_digits_is_shown_as_a_date() {
    assert_eq!(parse_ics_date("20250115", "America/New_York"), "2025-01-15");
}

#[test]
fn longer_text_that_is_no_stamp_gives_its_first_eight_digits_as_a_date() {
    assert_eq!(parse_ics_date("20250115T9999999", "UTC"), "2025-01-15");
    assert_eq!(parse_ics_date("20250115T999999Z", "UTC"), "2025-01-15");
    assert_eq!(parse_ics_date("2025011510000000", "UTC"), "2025-01-15");
    assert_eq!(parse_ics_date("20250115 and more", "UTC"), "2025-01-15");
}

#[test]
fn text_that_is_no_date_is_kept_as_it_is() {
    assert_eq!(parse_ics_date("not-a-date", "UTC"), "not-a-date");
    assert_eq!(parse_ics_date("not-a-date", "America/New_York"), "not-a-date");
    assert_eq!(parse_ics_date("abcdefghTijklmno", "UTC"), "abcdefghTijklmno");
    assert_eq!(parse_ics_date("abcdefghTijklmnoZ", "UTC"), "abcdefghTijklmnoZ");
    assert_eq!(parse_ics_date("2025011x", "UTC"), "2025011x");
    assert_eq!(parse_ics_date("2025-01-15", "UTC"), "2025-01-15");
    assert_eq!(parse_ics_date("\u{664}0250115", "UTC"), "\u{664}0250115");
}

#[test]
fn short_text_is_kept_as_it_is() {
    assert_eq!(parse_ics_date("2025", "UTC"), "2025");
    assert_eq!(parse_ics_date("", "UTC"), "");
    assert_eq!(parse_ics_date("garbage", "UTC"), "garbage");
}

#[test]
fn text_with_other_characters_among_the_first_eight_is_kept_as_it_is() {
    assert_eq!(parse_ics_date("202\u{e9}0115", "UTC"), "202\u{e9}0115");
    assert_eq!(parse_ics_date("\u{e9}20250115", "UTC"), "\u{e9}20250115");
}

#[test]
fn date_in_unknown_zone_is_shown_in_utc() {
    assert_eq!(parse_ics_date("20250115T100000Z", "Mars/Olympus_Mons"), "2025-01-15 10:00:00");
    assert_eq!(parse_ics_date("20250115T100000Z", ""), "2025-01-15 10:00:00");
    assert_eq!(parse_ics_date("20250115", "Nowhere"), "2025-01-15");
}

#[test]
fn date_field_says_what_was_made_of_it() {
    assert_eq!(
        read_date("20250115T100000Z", "America/New_York"),
        DateField::Local("2025-01-15 05:00:00".to_string())
    );
    assert_eq!(read_date("20250115", "America/New_York"), DateField::Day("2025-01-15".to_string()));
    assert_eq!(read_date("20250115T250000Z", "UTC"), DateField::Day("2025-01-15".to_string()));
    assert_eq!(read_date("tomorrow", "UTC"), DateField::Unparsed("tomorrow".to_string()));
    assert_eq!(read_date("20250115T100000", "UTC"), DateField::Day("2025-01-15".to_string()));
    assert_eq!(read_date("soon", "UTC"), DateField::Unparsed("soon".to_string()));
    assert_eq!(read_date("", "UTC"), DateField::Unparsed(String::new()));
    assert_eq!(read_date("202\u{e9}0115", "UTC"), DateField::Unparsed("202\u{e9}0115".to_string()));
    assert_eq!(read_date("20250115T100000Z", "Nowhere"), DateField::Day("2025-01-15".to_string()));
}

#[test]
fn date_field_gives_its_text() {
    assert_eq!(DateField::Local("a".to_string()).into_text(), "a");
    assert_eq!(DateField::Day("b".to_string()).into_text(), "b");
    assert_eq!(DateField::Unparsed("c".to_string()).into_text(), "c");
    assert_eq!(date_in_zone("20250115T100000Z", "Asia/Kolkata"), "2025-01-15 15:30:00");
    assert_eq!(date_in_zone("20250115T100000Z", "Nowhere"), "2025-01-15");
}

#[test]
fn chrono_reads_more_than_fifteen_digits() {
    assert_eq!(parse_ics_date("2025-1-15T100000Z", "UTC"), "2025-1-15T100000Z");
    assert_eq!(parse_ics_date(" 20250115T100000Z", "UTC"), "2025-01-15 10:00:00");
    assert_eq!(parse_ics_date("20250115T235960Z", "UTC"), "2025-01-15 23:59:60");
    assert_eq!(parse_ics_date("20250230T100000Z", "UTC"), "2025-02-30");
    assert_eq!(parse_ics_date("+20250115T100000Z", "UTC"), "+20250115T100000Z");
}

#[test]
fn unknown_zone_falls_back_to_utc() {
    assert_eq!(resolve_zone("Mars/Olympus_Mons"), "UTC");
    assert_eq!(resolve_zone(""), "UTC");
    assert_eq!(resolve_zone("america/new_york"), "UTC");
    assert_eq!(resolve_zone("Europe/Berlin"), "Europe/Berlin");
}

#[test]
fn unescape_replaces_the_three_sequences() {
    assert_eq!(unescape_ics_text("a\\nb\\,c\\;d"), "a\nb,c;d");
    assert_eq!(unescape_ics_text("\\\\n"), "\\\n");
    assert_eq!(unescape_ics_text("tail\\"), "tail\\");
    assert_eq!(unescape_ics_text("\\x\\N"), "\\x\\N");
}

#[test]
fn unescape_keeps_clean_text() {
    assert_eq!(unescape_ics_text("Team meeting, room 4; bring notes"), "Team meeting, room 4; bring notes");
    assert_eq!(unescape_ics_text(""), "");
}

#[test]
fn unescape_agrees_with_three_replacements() {
    let samples = ["\\n\\,\\;", "\\\\,n", "\\\\;,\\n\\", "a\\\\nb", "\\,\\,\\n\\n;", "\\\\\\n"];
    for s in samples {
        let expected = s.replace("\\n", "\n").replace("\\,", ",").replace("\\;", ";");
        assert_eq!(unescape_ics_text(s), expected);
    }
}

#[test]
fn well_formed_blocks_give_their_events_in_order() {
    let feed = "BEGIN:VCALENDAR\r\nBEGIN:VEVENT\r\nSUMMARY:Standup\r\nDTSTART:20250115T100000Z\r\nDTEND:20250115T103000Z\r\nLOCATION:Room 1\r\nDESCRIPTION:Daily\\, short\r\nEND:VEVENT\r\nBEGIN:VEVENT\r\nSUMMARY:Holiday\r\nDTSTART:20250201\r\nDTEND:20250202\r\nEND:VEVENT\r\nEND:VCALENDAR\r\n";
    let events = parse_ics(feed, "America/New_York");
    assert_eq!(
        events,
        vec![
            event("Standup", "2025-01-15 05:00:00", "2025-01-15 05:30:00", "Room 1", "Daily, short"),
            event("Holiday", "2025-02-01", "2025-02-02", "", ""),
        ]
    );
}

#[test]
fn unterminated_block_is_dropped() {
    let feed = "BEGIN:VEVENT\nSUMMARY:First\nEND:VEVENT\nBEGIN:VEVENT\nSUMMARY:Lost\nBEGIN:VEVENT\nSUMMARY:Last\nEND:VEVENT\nBEGIN:VEVENT\nSUMMARY:Open at the end\n";
    let events = parse_ics(feed, "UTC");
    assert_eq!(events, vec![event("First", "", "", "", ""), event("Last", "", "", "", "")]);
}

#[test]
fn only_an_open_block_gives_no_event() {
    assert_eq!(parse_ics("BEGIN:VEVENT\nSUMMARY:Never closed", "UTC"), vec![]);
    assert_eq!(parse_ics("", "UTC"), vec![]);
    assert_eq!(parse_ics("END:VEVENT\nSUMMARY:Outside", "UTC"), vec![]);
}

#[test]
fn unknown_keys_are_skipped_and_values_keep_their_colons() {
    let feed = "BEGIN:VEVENT\nUID:1\nDTSTART;TZID=Europe/Paris:20250115T100000\nSUMMARY:Talk: part 2\n  LOCATION:indented  \nnonsense\nEND:VEVENT";
    let events = parse_ics(feed, "UTC");
    assert_eq!(events, vec![event("Talk: part 2", "", "", "indented", "")]);
}

#[test]
fn later_field_replaces_earlier_one() {
    let feed = "BEGIN:VEVENT\nSUMMARY:Draft\nSUMMARY:Final\nEND:VEVENT";
    assert_eq!(parse_ics(feed, "UTC"), vec![event("Final", "", "", "", "")]);
}

#[test]
fn bad_date_does_not_fail_the_feed() {
    let feed = "BEGIN:VEVENT\nSUMMARY:Odd\nDTSTART:soon\nDTEND:20251399T000000Z\nEND:VEVENT";
    assert_eq!(parse_ics(feed, "UTC"), vec![event("Odd", "soon", "2025-13-99", "", "")]);
}

#[test]
fn feed_in_unknown_zone_is_shown_in_utc() {
    let feed = "BEGIN:VEVENT\nDTSTART:20250115T100000Z\nEND:VEVENT";
    assert_eq!(parse_ics(feed, "Nowhere"), vec![event("", "2025-01-15 10:00:00", "", "", "")]);
}

#[test]
fn parse_agrees_line_by_line_with_std() {
    let feed = "BEGIN:VEVENT\r\nSUMMARY:\u{a0}padded\u{3000}\r\nEND:VEVENT\r\n\r\n";
    assert_eq!(parse_ics(feed, "UTC"), vec![event("\u{a0}padded", "", "", "", "")]);
}

#[test]
fn only_long_fields_with_a_t_are_taken_for_stamps() {
    assert_eq!(utc_stamp("20250115T100000Z"), Some("20250115T100000".to_string()));
    assert_eq!(utc_stamp("20250115T100000"), None);
    assert_eq!(utc_stamp("20250115T100000z"), None);
    assert_eq!(utc_stamp("20250115T100000Z "), None);
    assert_eq!(utc_stamp("20250115T100000ZZ"), Some("20250115T100000Z".to_string()));
    assert_eq!(utc_stamp("Z0250115T10000ZxZ"), Some("Z0250115T10000Zx".to_string()));
    assert_eq!(utc_stamp("TZZZZZZZZZZZZZZ"), Some("TZZZZZZZZZZZZZ".to_string()));
    assert_eq!(utc_stamp("2025115T100000Z"), Some("2025115T100000".to_string()));
    assert_eq!(utc_stamp("202515T100000Z"), None);
    assert_eq!(utc_stamp("2025011510000000Z"), None);
    assert_eq!(utc_stamp("20250115T10000"), None);
    assert_eq!(utc_stamp("202501151000000000"), None);
    assert_eq!(utc_stamp("20250115t100000Z"), None);
    assert_eq!(utc_stamp(""), None);
    assert_eq!(utc_stamp("\u{e9}\u{e9}\u{e9}\u{e9}\u{e9}\u{e9}\u{e9}TZ"), Some("\u{e9}\u{e9}\u{e9}\u{e9}\u{e9}\u{e9}\u{e9}T".to_string()));
    assert_eq!(utc_stamp("\u{e9}\u{e9}\u{e9}\u{e9}\u{e9}\u{e9}TZ"), None);
}

#[test]
fn field_is_made_from_what_was_read() {
    assert_eq!(field_from("anything", Some("2025-01-15 05:00:00".to_string())), DateField::Local("2025-01-15 05:00:00".to_string()));
    assert_eq!(field_from("20250115T100000Z", None), DateField::Day("2025-01-15".to_string()));
    assert_eq!(field_from("2025011", None), DateField::Unparsed("2025011".to_string()));
    assert_eq!(field_from("20250\u{e9}5", None), DateField::Unparsed("20250\u{e9}5".to_string()));
    assert_eq!(field_from("2025\u{e9}15", None), DateField::Unparsed("2025\u{e9}15".to_string()));
    assert_eq!(field_from("not-a-date", None), DateField::Unparsed("not-a-date".to_string()));
    assert_eq!(field_from("20251399", None), DateField::Day("2025-13-99".to_string()));
}

#[test]
fn zone_that_is_not_known_becomes_utc() {
    assert_eq!(zone_name_or_utc("Europe/Rome", true), "Europe/Rome");
    assert_eq!(zone_name_or_utc("Europe/Rome", false), "UTC");
    assert_eq!(zone_name_or_utc("", false), "UTC");
    assert_eq!(zone_name_or_utc("", true), "");
}

#[test]
fn builder_starts_blank_and_takes_lines() {
    let blank = EventBuilder::default().build();
    assert_eq!(blank, event("", "", "", "", ""));
    assert_eq!(EventBuilder::new().build(), event("", "", "", "", ""));
    let mut builder = EventBuilder::new();
    for line in ["SUMMARY:Review", "DTSTART:20250301T120000Z", "DTEND:20250301", "LOCATION:Hall\\, east", "DESCRIPTION:bring\\, this\\nand that", "X-OTHER:1", "SUMMARY", ":", ""] {
        let chars: Vec<char> = line.chars().collect();
        builder.take_line(&chars, "Asia/Tokyo");
    }
    assert_eq!(
        builder.build(),
        event("Review", "2025-03-01 21:00:00", "2025-03-01", "Hall, east", "bring, this\nand that")
    );
}

#[test]
fn unescape_works_on_characters() {
    let given: Vec<char> = "a\\;b".chars().collect();
    let expected: Vec<char> = "a;b".chars().collect();
    assert_eq!(unescape(&given), expected);
}

#[test]
fn location_and_description_are_unescaped() {
    let feed = "BEGIN:VEVENT\nLOCATION:Room 1\\, Floor 2\nDESCRIPTION:Bring a\\; b\\nnotes\nEND:VEVENT\n";
    let events = parse_ics(feed, "UTC");
    assert_eq!(events.len(), 1);
    assert_eq!(events[0].location, "Room 1, Floor 2");
    assert_eq!(events[0].description, "Bring a; b\nnotes");
}

#[test]
fn title_is_taken_as_it_is_written() {
    let feed = "BEGIN:VEVENT\nSUMMARY:Lunch\\, then talk\nEND:VEVENT";
    assert_eq!(parse_ics(feed, "UTC"), vec![event("Lunch\\, then talk", "", "", "", "")]);
}

#[test]
fn dates_of_a_feed_without_utc_mark_are_dates_only() {
    let feed = "BEGIN:VEVENT\nDTSTART:20250115T100000\nDTEND:20250115T110000Z\nEND:VEVENT";
    assert_eq!(
        parse_ics(feed, "America/New_York"),
        vec![event("", "2025-01-15", "2025-01-15 06:00:00", "", "")]
    );
}
