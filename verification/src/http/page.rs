use vstd::prelude::*;
use vstd::utf8::encode_utf8;
use crate::calendar::event::event_views;
use crate::calendar::event::Event;
use crate::calendar::event::EventView;
use crate::http::html::Html;
use crate::http::response::create_html_response;
use crate::http::response::response_head;
use crate::http::upcoming::events_ahead;
use crate::http::upcoming::upcoming_events;
use crate::http::upcoming::Instant;
use crate::text::chars::chars_of;
use crate::text::chars::extend_chars;
use crate::text::chars::extend_text;
use crate::text::chars::same_chars;
use crate::text::chars::text_of;
use crate::text::number::decimal;
use crate::text::number::parse_unsigned;
use crate::text::number::push_decimal;
use crate::text::number::unsigned_of;
use crate::text::search::contains_text;
use crate::text::search::has_text;
use crate::text::split::cut;
use crate::text::split::cut_words;
use crate::text::split::lemma_split_on_len;
use crate::text::split::split_on;
use crate::text::split::views;
use crate::text::split::words;

verus! {

/// The page up to its list of events.
pub const PAGE_HEAD: &'static str = r#"<!DOCTYPE html>
<html lang="en">
<head>
    <meta charset="UTF-8">
    <meta name="viewport" content="width=device-width, initial-scale=1.0">
    <title>MY AGENDA</title>
    <style>
        * {
            margin: 0;
            padding: 0;
            box-sizing: border-box;
        }
        body {
            font-family: -apple-system, BlinkMacSystemFont, 'Segoe UI', Roboto, 'Helvetica Neue', Arial, sans-serif;
            background-color: #000;
            color: #fff;
            padding: 40px 20px;
            max-width: 700px;
            margin: 0 auto;
        }
        .header {
            text-align: right;
            font-size: 14px;
            letter-spacing: 2px;
            color: #999;
            margin-bottom: 40px;
        }
        .day-section {
            margin-bottom: 30px;
            border-bottom: 1px solid #333;
            padding-bottom: 20px;
        }
        .day-header {
            font-size: 18px;
            font-weight: bold;
            text-transform: uppercase;
            margin-bottom: 15px;
            letter-spacing: 1px;
        }
        .event-item {
            display: flex;
            align-items: flex-start;
            margin-bottom: 12px;
            padding-left: 0;
        }
        .event-dot {
            width: 12px;
            height: 12px;
            border-radius: 50%;
            margin-right: 10px;
            margin-top: 4px;
            flex-shrink: 0;
        }
        .event-dot.active {
            background-color: #ff6b35;
        }
        .event-dot.past {
            background-color: #666;
        }
        .event-dot.video {
            background-color: #4a9eff;
        }
        .event-content {
            flex: 1;
        }
        .event-time {
            color: #ccc;
            font-size: 13px;
            margin-right: 8px;
        }
        .event-title {
            color: #fff;
            font-size: 14px;
            display: inline;
        }
        .event-tag {
            display: inline-block;
            background-color: #4a4a4a;
            color: #fff;
            padding: 2px 10px;
            border-radius: 4px;
            font-size: 12px;
            margin-right: 6px;
            margin-bottom: 4px;
        }
        .event-tag.green {
            background-color: #2d5f2e;
        }
        .event-tag.blue {
            background-color: #1e3a5f;
        }
        .event-tag.orange {
            background-color: #5f3a1e;
        }
        .event-status {
            color: #999;
            font-size: 12px;
            margin-left: 8px;
        }
        .event-location {
            color: #999;
            font-size: 12px;
            text-align: right;
            margin-top: -20px;
            margin-bottom: 10px;
        }
        .event-description {
            color: #999;
            font-size: 13px;
            margin-left: 22px;
            margin-top: 4px;
        }
        .no-events {
            text-align: center;
            padding: 60px 20px;
            color: #666;
            font-size: 14px;
        }
    </style>
</head>
<body>
    <div class="header">MY AGENDA</div>
"#;

/// What stands in place of the list where there is no event to show.
pub const NO_EVENTS: &'static str =
    "<div class=\"no-events\">No events found. Check back later!</div>";

/// The script behind the list, which reloads the page when the store has
/// changed.
pub const PAGE_SCRIPT: &'static str = r#"
    <script>
        // Get initial timestamp
        let lastKnownUpdate = null;

        // Fetch current timestamp on load
        fetch('/api/last-update')
            .then(r => r.json())
            .then(data => {
                lastKnownUpdate = data.last_update;
            });

        // Check for updates every minute
        setInterval(() => {
            fetch('/api/last-update')
                .then(r => r.json())
                .then(data => {
                    if (lastKnownUpdate && data.last_update > lastKnownUpdate) {
                        console.log('Events updated, reloading...');
                        location.reload();
                    }
                    lastKnownUpdate = data.last_update;
                })
                .catch(err => console.error('Failed to check for updates:', err));
        }, 60000); // Check every 60 seconds
    </script>
"#;

/// The end of the page.
pub const PAGE_END: &'static str = "</body></html>";

/// The start of the section of one day, up to the name of the day.
pub const DAY_OPEN: &'static str =
    "    <div class=\"day-section\">\n        <div class=\"day-header\">";

/// The end of a line that names something.
pub const LINE_CLOSE: &'static str = "</div>\n";

/// The end of the section of one day.
pub const DAY_CLOSE: &'static str = "    </div>\n";

/// The start of one event, up to the class of its dot.
pub const ITEM_OPEN: &'static str =
    "        <div class=\"event-item\">\n            <div class=\"event-dot ";

/// What stands between the class of the dot and the times.
pub const ITEM_TIMES: &'static str =
    "\"></div>\n            <div class=\"event-content\">\n                <span class=\"event-time\">";

/// What stands between the two times.
pub const TIME_DASH: &'static str = " - ";

/// What stands between the times and the title.
pub const ITEM_TITLE: &'static str = "</span>\n                <span class=\"event-title\">";

/// What stands behind the title.
pub const TITLE_CLOSE: &'static str = "</span>\n";

/// The start of the line that names the place.
pub const LOCATION_OPEN: &'static str = "\n                <div class=\"event-location\">";

/// The start of the line that holds the description.
pub const DESCRIPTION_OPEN: &'static str = "\n                <div class=\"event-description\">";

/// The end of one event.
pub const ITEM_CLOSE: &'static str = "            </div>\n        </div>\n";

/// What `c` becomes in a page: the five characters that would be read as
/// markup, or would not show, are written out.
pub open spec fn html_of_char(c: char) -> Seq<char> {
    if c == '&' {
        "&amp;"@
    } else if c == '<' {
        "&lt;"@
    } else if c == '>' {
        "&gt;"@
    } else if c == '"' {
        "&quot;"@
    } else if c == '\n' {
        "<br>"@
    } else {
        seq![c]
    }
}

/// `s` as it goes into a page, character by character.
pub open spec fn html_escaped(s: Seq<char>) -> Seq<char>
    decreases s.len(),
{
    if s.len() == 0 {
        Seq::empty()
    } else {
        html_escaped(s.drop_last()) + html_of_char(s.last())
    }
}

/// The name of the month of number `month`, in capitals: none for 0, and
/// `UNKNOWN` above 12.
pub open spec fn month_name(month: nat) -> Seq<char> {
    if month == 0 {
        ""@
    } else if month == 1 {
        "JANUARY"@
    } else if month == 2 {
        "FEBRUARY"@
    } else if month == 3 {
        "MARCH"@
    } else if month == 4 {
        "APRIL"@
    } else if month == 5 {
        "MAY"@
    } else if month == 6 {
        "JUNE"@
    } else if month == 7 {
        "JULY"@
    } else if month == 8 {
        "AUGUST"@
    } else if month == 9 {
        "SEPTEMBER"@
    } else if month == 10 {
        "OCTOBER"@
    } else if month == 11 {
        "NOVEMBER"@
    } else if month == 12 {
        "DECEMBER"@
    } else {
        "UNKNOWN"@
    }
}

/// The number that `s` spells, or 1 where it spells none up to `max`.
pub open spec fn number_or_one(s: Seq<char>, max: nat) -> nat {
    match unsigned_of(s, max) {
        Some(n) => n,
        None => 1,
    }
}

/// The heading for the day `s`, a date `YYYY-MM-DD`: the number of the
/// day, a full stop and the name of the month. A part that is no number
/// counts as 1. Text that is not three parts between hyphens stays as it is.
pub open spec fn day_heading(s: Seq<char>) -> Seq<char> {
    let parts = split_on(s, '-');
    if parts.len() == 3 {
        decimal(number_or_one(parts[2], u32::MAX as nat)) + ". "@ + month_name(
            number_or_one(parts[1], usize::MAX as nat),
        )
    } else {
        s
    }
}

/// The time of day `HH:MM` of the date and time `s`: of its second word,
/// what stands before the second colon. `00:00` where `s` has no second
/// word.
pub open spec fn clock_time(s: Seq<char>) -> Seq<char> {
    let parts = words(s);
    if parts.len() >= 2 {
        let pieces = split_on(parts[1], ':');
        if pieces.len() >= 2 {
            pieces[0] + ":"@ + pieces[1]
        } else {
            pieces[0]
        }
    } else {
        "00:00"@
    }
}

/// The day of the date and time `s`: its first word, or nothing.
pub open spec fn day_of(s: Seq<char>) -> Seq<char> {
    let parts = words(s);
    if parts.len() >= 1 {
        parts[0]
    } else {
        Seq::empty()
    }
}

/// The class of the dot of an event with this description.
pub open spec fn dot_class(description: Seq<char>) -> Seq<char> {
    if description.len() > 0 && contains_text(description, "video"@) {
        "video"@
    } else {
        "active"@
    }
}

/// The start of an event in the page: dot, times and title.
pub open spec fn item_lead(event: EventView) -> Seq<char> {
    ITEM_OPEN@ + dot_class(event.description) + ITEM_TIMES@ + html_escaped(
        clock_time(event.start_date),
    ) + TIME_DASH@ + html_escaped(clock_time(event.end_date)) + ITEM_TITLE@ + html_escaped(
        event.title,
    ) + TITLE_CLOSE@
}

/// A line of an event that starts with `open` and holds `text`, or
/// nothing where `text` is empty.
pub open spec fn detail_line(open: Seq<char>, text: Seq<char>) -> Seq<char> {
    if text.len() > 0 {
        open + html_escaped(text) + LINE_CLOSE@
    } else {
        Seq::empty()
    }
}

/// One event as it stands in the page: dot, times, title, and the place
/// and the description where it has them.
pub open spec fn event_item(event: EventView) -> Seq<char> {
    item_lead(event) + detail_line(LOCATION_OPEN@, event.location) + detail_line(
        DESCRIPTION_OPEN@,
        event.description,
    ) + ITEM_CLOSE@
}

/// What opens the section of the day `day` behind a section of the day
/// `open_day`: nothing where the day is the same, else the end of the
/// section that is open, if one is, and the heading of the new one.
pub open spec fn day_change(open_day: Seq<char>, day: Seq<char>) -> Seq<char> {
    if day == open_day {
        Seq::empty()
    } else {
        (if open_day.len() > 0 {
            DAY_CLOSE@
        } else {
            Seq::empty()
        }) + DAY_OPEN@ + day_heading(day) + LINE_CLOSE@
    }
}

/// The events `events` as they stand in the page behind a section of the
/// day `open_day`: each under the heading of its day, a heading for each
/// run of events of one day.
pub open spec fn day_sections(events: Seq<EventView>, open_day: Seq<char>) -> Seq<char>
    decreases events.len(),
{
    if events.len() == 0 {
        if open_day.len() > 0 {
            DAY_CLOSE@
        } else {
            Seq::empty()
        }
    } else {
        let day = day_of(events[0].start_date);
        day_change(open_day, day) + event_item(events[0]) + day_sections(events.drop_first(), day)
    }
}

/// The first `count` of `events`, or all of them.
pub open spec fn first_events(events: Seq<EventView>, count: nat) -> Seq<EventView> {
    if events.len() <= count {
        events
    } else {
        events.take(count as int)
    }
}

/// The page for `events`: the first `cap` of them, under the headings of
/// their days, or the line that says that there are none to show.
pub open spec fn index_page(events: Seq<EventView>, cap: nat) -> Seq<char> {
    let shown = first_events(events, cap);
    PAGE_HEAD@ + (if shown.len() == 0 {
        NO_EVENTS@
    } else {
        day_sections(shown, Seq::empty())
    }) + PAGE_SCRIPT@ + PAGE_END@
}

/// The response that carries the page `page`.
pub open spec fn page_response(page: Seq<char>) -> Seq<char> {
    response_head(200, "OK"@, "text/html; charset=utf-8"@, encode_utf8(page).len()) + page
}

/// Appends `chars`, as it goes into a page, to `out`.
fn push_escaped(out: &mut Vec<char>, chars: &Vec<char>)
    ensures
        final(out)@ == old(out)@ + html_escaped(chars@),
{
    let mut i: usize = 0;
    assert(chars@.take(0) == Seq::<char>::empty());
    while i < chars.len()
        invariant
            i <= chars.len(),
            out@ == old(out)@ + html_escaped(chars@.take(i as int)),
        decreases chars.len() - i,
    {
        let c: char = chars[i];
        let ghost upto = chars@.take(i + 1);
        assert(upto.drop_last() == chars@.take(i as int));
        assert(upto.last() == c);
        if c == '&' {
            extend_text(out, "&amp;");
        } else if c == '<' {
            extend_text(out, "&lt;");
        } else if c == '>' {
            extend_text(out, "&gt;");
        } else if c == '"' {
            extend_text(out, "&quot;");
        } else if c == '\n' {
            extend_text(out, "<br>");
        } else {
            out.push(c);
            assert(out@ == old(out)@ + html_escaped(chars@.take(i as int)) + seq![c]);
        }
        i += 1;
    }
    assert(chars@.take(chars.len() as int) == chars@);
}

/// `s` as it goes into a page: `&`, `<`, `>` and `"` by their names, a
/// newline as a line break.
pub fn escape_html(s: &str) -> (out: String)
    ensures
        out@ == html_escaped(s@),
{
    let mut out: Vec<char> = Vec::new();
    push_escaped(&mut out, &chars_of(s));
    text_of(&out)
}

/// The name of the month of number `month`.
fn month_of(month: u64) -> (name: &'static str)
    ensures
        name@ == month_name(month as nat),
{
    if month == 0 {
        ""
    } else if month == 1 {
        "JANUARY"
    } else if month == 2 {
        "FEBRUARY"
    } else if month == 3 {
        "MARCH"
    } else if month == 4 {
        "APRIL"
    } else if month == 5 {
        "MAY"
    } else if month == 6 {
        "JUNE"
    } else if month == 7 {
        "JULY"
    } else if month == 8 {
        "AUGUST"
    } else if month == 9 {
        "SEPTEMBER"
    } else if month == 10 {
        "OCTOBER"
    } else if month == 11 {
        "NOVEMBER"
    } else if month == 12 {
        "DECEMBER"
    } else {
        "UNKNOWN"
    }
}

/// The heading for the day that `chars` spells.
fn heading_of(chars: &Vec<char>) -> (out: Vec<char>)
    ensures
        out@ == day_heading(chars@),
{
    let parts = cut(chars, '-');
    if parts.len() == 3 {
        assert(views(parts@)[1] == parts@[1]@ && views(parts@)[2] == parts@[2]@);
        let month: u64 = match parse_unsigned(&parts[1], usize::MAX as u64) {
            Some(n) => n,
            None => 1,
        };
        let day: u64 = match parse_unsigned(&parts[2], u32::MAX as u64) {
            Some(n) => n,
            None => 1,
        };
        let mut out: Vec<char> = Vec::new();
        push_decimal(&mut out, day);
        extend_text(&mut out, ". ");
        extend_text(&mut out, month_of(month));
        out
    } else {
        let mut out: Vec<char> = Vec::new();
        extend_chars(&mut out, chars);
        out
    }
}

/// The heading for the day `date_str`, a date `YYYY-MM-DD`: the number of
/// the day, a full stop and the name of the month.
pub fn format_date(date_str: &str) -> (out: String)
    ensures
        out@ == day_heading(date_str@),
{
    text_of(&heading_of(&chars_of(date_str)))
}

/// The time of day of the date and time that `chars` spells.
fn time_of(chars: &Vec<char>) -> (out: Vec<char>)
    ensures
        out@ == clock_time(chars@),
{
    let parts = cut_words(chars);
    let mut out: Vec<char> = Vec::new();
    if parts.len() >= 2 {
        assert(views(parts@)[1] == parts@[1]@);
        let pieces = cut(&parts[1], ':');
        proof {
            lemma_split_on_len(parts@[1]@, ':');
        }
        assert(views(pieces@)[0] == pieces@[0]@);
        extend_chars(&mut out, &pieces[0]);
        if pieces.len() >= 2 {
            assert(views(pieces@)[1] == pieces@[1]@);
            out.push(':');
            extend_chars(&mut out, &pieces[1]);
            proof {
                reveal_strlit(":");
                assert(":"@ == seq![':']);
            }
        }
    } else {
        extend_text(&mut out, "00:00");
    }
    out
}

/// The time of day `HH:MM` of the date and time `datetime`.
pub fn extract_time(datetime: &str) -> (out: String)
    ensures
        out@ == clock_time(datetime@),
{
    text_of(&time_of(&chars_of(datetime)))
}

/// The day of the date and time that `chars` spells.
fn first_word(chars: &Vec<char>) -> (out: Vec<char>)
    ensures
        out@ == day_of(chars@),
{
    let parts = cut_words(chars);
    let mut out: Vec<char> = Vec::new();
    if parts.len() >= 1 {
        assert(views(parts@)[0] == parts@[0]@);
        extend_chars(&mut out, &parts[0]);
    }
    out
}

/// The start of `event` in the page.
fn lead_of(event: &Event) -> (out: Vec<char>)
    ensures
        out@ == item_lead(event@),
{
    let description = chars_of(event.description.as_str());
    let mut out: Vec<char> = Vec::new();
    extend_text(&mut out, ITEM_OPEN);
    if description.len() > 0 && has_text(&description, &chars_of("video")) {
        extend_text(&mut out, "video");
    } else {
        extend_text(&mut out, "active");
    }
    extend_text(&mut out, ITEM_TIMES);
    push_escaped(&mut out, &time_of(&chars_of(event.start_date.as_str())));
    extend_text(&mut out, TIME_DASH);
    push_escaped(&mut out, &time_of(&chars_of(event.end_date.as_str())));
    extend_text(&mut out, ITEM_TITLE);
    push_escaped(&mut out, &chars_of(event.title.as_str()));
    extend_text(&mut out, TITLE_CLOSE);
    out
}

/// A line of an event that starts with `open` and holds `text`.
fn line_of(open: &str, text: &str) -> (out: Vec<char>)
    ensures
        out@ == detail_line(open@, text@),
{
    let chars = chars_of(text);
    let mut out: Vec<char> = Vec::new();
    if chars.len() > 0 {
        extend_text(&mut out, open);
        push_escaped(&mut out, &chars);
        extend_text(&mut out, LINE_CLOSE);
    }
    out
}

/// Appends `event`, as it stands in the page, to `out`.
fn push_item(out: &mut Vec<char>, event: &Event)
    ensures
        final(out)@ == old(out)@ + event_item(event@),
{
    let mut item = lead_of(event);
    extend_chars(&mut item, &line_of(LOCATION_OPEN, event.location.as_str()));
    extend_chars(&mut item, &line_of(DESCRIPTION_OPEN, event.description.as_str()));
    extend_text(&mut item, ITEM_CLOSE);
    extend_chars(out, &item);
}

/// What opens the section of the day `day` behind a section of the day
/// `open_day`.
fn day_change_of(open_day: &Vec<char>, day: &Vec<char>) -> (out: Vec<char>)
    ensures
        out@ == day_change(open_day@, day@),
{
    let mut out: Vec<char> = Vec::new();
    if !same_chars(day, open_day) {
        if open_day.len() > 0 {
            extend_text(&mut out, DAY_CLOSE);
        }
        extend_text(&mut out, DAY_OPEN);
        extend_chars(&mut out, &heading_of(day));
        extend_text(&mut out, LINE_CLOSE);
    }
    out
}

/// The page for `events`: the first `cap` of them, each under the heading
/// of its day, or a line that says that there are none to show.
pub fn render_index(events: &Vec<Event>, cap: usize) -> (page: String)
    ensures
        page@ == index_page(event_views(events@), cap as nat),
{
    let count: usize = if events.len() <= cap {
        events.len()
    } else {
        cap
    };
    let ghost shown = first_events(event_views(events@), cap as nat);
    assert(shown == event_views(events@).take(count as int));
    let mut out: Vec<char> = Vec::new();
    extend_text(&mut out, PAGE_HEAD);
    if count == 0 {
        extend_text(&mut out, NO_EVENTS);
    } else {
        let mut open_day: Vec<char> = Vec::new();
        let mut i: usize = 0;
        assert(shown.skip(0) == shown);
        while i < count
            invariant
                i <= count <= events.len(),
                shown == event_views(events@).take(count as int),
                out@ + day_sections(shown.skip(i as int), open_day@) == PAGE_HEAD@ + day_sections(
                    shown,
                    Seq::empty(),
                ),
            decreases count - i,
        {
            let ghost rest = shown.skip(i as int);
            let ghost before = out@;
            assert(rest[0] == events@[i as int]@);
            assert(rest.drop_first() == shown.skip(i + 1));
            let day = first_word(&chars_of(events[i].start_date.as_str()));
            extend_chars(&mut out, &day_change_of(&open_day, &day));
            push_item(&mut out, &events[i]);
            assert(out@ + day_sections(shown.skip(i + 1), day@) == before + day_sections(
                rest,
                open_day@,
            ));
            open_day = day;
            i += 1;
        }
        assert(shown.skip(count as int) == Seq::<EventView>::empty());
        if open_day.len() > 0 {
            extend_text(&mut out, DAY_CLOSE);
        }
    }
    extend_text(&mut out, PAGE_SCRIPT);
    extend_text(&mut out, PAGE_END);
    text_of(&out)
}

/// The response that carries `page` as a page.
pub fn respond_with_page(page: String) -> (response: String)
    ensures
        response@ == page_response(page@),
{
    let html = Html { content_type: "text/html; charset=utf-8".to_owned(), content: page };
    create_html_response(200, "OK", html)
}

/// The response for the index page at `now`: the page for the first `cap`
/// of those of `events` that the clock and the time zone of this machine
/// place at or after `now`.
pub fn generate_index_html(events: &Vec<Event>, now: Instant, cap: usize) -> (response: String)
    ensures
        exists|ends: Seq<Option<Instant>>|
            ends.len() == events.len() && response@ == page_response(
                index_page(#[trigger] events_ahead(event_views(events@), ends, now), cap as nat),
            ),
{
    let ahead = upcoming_events(events, now);
    respond_with_page(render_index(&ahead, cap))
}

} // verus!
