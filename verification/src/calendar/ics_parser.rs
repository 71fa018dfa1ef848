use vstd::prelude::*;
use crate::calendar::date::display_date;
use crate::calendar::date::display_zone;
use crate::calendar::date::date_in_zone;
use crate::calendar::date::resolve_zone;
use crate::calendar::event::event_views;
use crate::calendar::event::Event;
use crate::calendar::event::EventView;
use crate::text::chars::chars_of;
use crate::text::chars::spells;
use crate::text::chars::text_of;
use crate::text::space::trim;
use crate::text::space::trimmed;
use crate::text::split::cut;
use crate::text::split::cut_once;
use crate::text::split::holds;
use crate::text::split::joined;
use crate::text::split::split_on;
use crate::text::split::split_once;
use crate::text::split::views;

verus! {

/// The fields of an event block that is still open.
pub struct EventBuilder {
    pub title: String,
    pub start_date: String,
    pub end_date: String,
    pub location: String,
    pub description: String,
}

/// What an `EventBuilder` holds, as plain text.
pub struct BuilderView {
    pub title: Seq<char>,
    pub start_date: Seq<char>,
    pub end_date: Seq<char>,
    pub location: Seq<char>,
    pub description: Seq<char>,
}

impl View for EventBuilder {
    type V = BuilderView;

    open spec fn view(&self) -> BuilderView {
        BuilderView {
            title: self.title@,
            start_date: self.start_date@,
            end_date: self.end_date@,
            location: self.location@,
            description: self.description@,
        }
    }
}

/// The builder of a block that has given no field yet.
pub open spec fn blank_builder() -> BuilderView {
    BuilderView {
        title: Seq::empty(),
        start_date: Seq::empty(),
        end_date: Seq::empty(),
        location: Seq::empty(),
        description: Seq::empty(),
    }
}

/// The event that a finished block gives: its fields, and no calendar.
pub open spec fn built(builder: BuilderView) -> EventView {
    EventView {
        title: builder.title,
        start_date: builder.start_date,
        end_date: builder.end_date,
        location: builder.location,
        description: builder.description,
        calendar_id: Seq::empty(),
    }
}

/// Whether `c`, behind a backslash, makes an escape sequence.
pub open spec fn is_escaped_mark(c: char) -> bool {
    c == 'n' || c == ',' || c == ';'
}

/// The character that the escape sequence of a backslash and `c` stands for.
pub open spec fn escaped_char(c: char) -> char {
    if c == 'n' {
        '\n'
    } else {
        c
    }
}

/// Whether an escape sequence starts at index `i` of `s`.
pub open spec fn escape_at(s: Seq<char>, i: int) -> bool {
    0 <= i && i + 1 < s.len() && s[i] == '\\' && is_escaped_mark(s[i + 1])
}

/// `s` with each escape sequence (a backslash and then `n`, a comma or a
/// semicolon) replaced by the newline, comma or semicolon that it stands for,
/// reading from the left.
pub open spec fn unescaped(s: Seq<char>) -> Seq<char>
    decreases s.len(),
{
    if s.len() == 0 {
        s
    } else if escape_at(s, 0) {
        seq![escaped_char(s[1])] + unescaped(s.skip(2))
    } else {
        seq![s[0]] + unescaped(s.skip(1))
    }
}

/// The builder after the line `line` of an open block: a line `KEY:VALUE`
/// with one of the five known keys sets that field, any other line changes
/// nothing. The title is taken as it is written, the two dates in their
/// display form, the place and the description with their escape sequences
/// replaced.
pub open spec fn with_property(builder: BuilderView, line: Seq<char>, zone: Seq<char>)
    -> BuilderView {
    match split_once(line, ':') {
        Some((key, value)) => {
            if key == "SUMMARY"@ {
                BuilderView { title: value, ..builder }
            } else if key == "DTSTART"@ {
                BuilderView { start_date: display_date(value, zone), ..builder }
            } else if key == "DTEND"@ {
                BuilderView { end_date: display_date(value, zone), ..builder }
            } else if key == "LOCATION"@ {
                BuilderView { location: unescaped(value), ..builder }
            } else if key == "DESCRIPTION"@ {
                BuilderView { description: unescaped(value), ..builder }
            } else {
                builder
            }
        },
        None => builder,
    }
}

/// Where the parser stands between two lines: the events of the blocks that
/// have ended, and the builder of the block that is open, if one is.
pub struct ParserState {
    pub events: Seq<EventView>,
    pub open: Option<BuilderView>,
}

/// The state before the first line: no event, no open block.
pub open spec fn initial_state() -> ParserState {
    ParserState { events: Seq::empty(), open: None }
}

/// The state after the line `line`, which has no whitespace at its ends.
///
/// A begin marker opens a block with a blank builder, and drops a block that
/// was still open. An end marker closes the open block and adds its event.
/// Any other line sets a field of the open block, and is skipped outside of
/// a block.
pub open spec fn after_line(state: ParserState, line: Seq<char>, zone: Seq<char>) -> ParserState {
    if line == "BEGIN:VEVENT"@ {
        ParserState { events: state.events, open: Some(blank_builder()) }
    } else if line == "END:VEVENT"@ {
        match state.open {
            Some(builder) => ParserState { events: state.events.push(built(builder)), open: None },
            None => state,
        }
    } else {
        match state.open {
            Some(builder) => ParserState {
                events: state.events,
                open: Some(with_property(builder, line, zone)),
            },
            None => state,
        }
    }
}

/// The state after the lines `lines`, each taken without the whitespace at
/// its ends.
pub open spec fn after_lines(state: ParserState, lines: Seq<Seq<char>>, zone: Seq<char>)
    -> ParserState
    decreases lines.len(),
{
    if lines.len() == 0 {
        state
    } else {
        after_lines(after_line(state, trimmed(lines[0]), zone), lines.drop_first(), zone)
    }
}

/// The lines of a feed: what stands between its newlines.
pub open spec fn feed_lines(content: Seq<char>) -> Seq<Seq<char>> {
    split_on(content, '\n')
}

/// The events of a feed of the lines `lines`, with times shown in `zone`:
/// one for each block that ends, in the order in which the blocks end. A
/// block that is open at the end of the feed gives none.
pub open spec fn events_of_lines(lines: Seq<Seq<char>>, zone: Seq<char>) -> Seq<EventView> {
    after_lines(initial_state(), lines, zone).events
}

/// The events of the feed `content`, with times shown in the zone
/// `timezone`, or in UTC where that zone is not known.
pub open spec fn parsed_events(content: Seq<char>, timezone: Seq<char>) -> Seq<EventView> {
    events_of_lines(feed_lines(content), display_zone(timezone))
}

/// Whether `line`, without the whitespace at its ends, is the begin marker.
pub open spec fn is_begin(line: Seq<char>) -> bool {
    trimmed(line) == "BEGIN:VEVENT"@
}

/// Whether `line`, without the whitespace at its ends, is the end marker.
pub open spec fn is_end(line: Seq<char>) -> bool {
    trimmed(line) == "END:VEVENT"@
}

/// The builder after the lines `body` of an open block, none of which is a
/// marker: each line in turn sets its field.
pub open spec fn with_properties(builder: BuilderView, body: Seq<Seq<char>>, zone: Seq<char>)
    -> BuilderView
    decreases body.len(),
{
    if body.len() == 0 {
        builder
    } else {
        with_properties(with_property(builder, trimmed(body[0]), zone), body.drop_first(), zone)
    }
}

/// A well-formed block of a feed, with the lines that stand before it
/// outside of any block.
pub struct Block {
    /// The lines before the begin marker. None of them is a begin marker.
    pub before: Seq<Seq<char>>,
    /// The lines between the two markers. None of them is a marker.
    pub body: Seq<Seq<char>>,
}

/// Whether `block` is well formed: no begin marker before it, no marker
/// inside it.
pub open spec fn well_formed(block: Block) -> bool {
    &&& forall|i: int| 0 <= i < block.before.len() ==> !is_begin(#[trigger] block.before[i])
    &&& forall|i: int|
        0 <= i < block.body.len() ==> !is_begin(#[trigger] block.body[i]) && !is_end(
            block.body[i],
        )
}

/// The lines of `block`: what stands before it, the begin marker, its
/// body, the end marker.
pub open spec fn block_lines(block: Block) -> Seq<Seq<char>> {
    block.before + seq!["BEGIN:VEVENT"@] + block.body + seq!["END:VEVENT"@]
}

/// The lines of the blocks `blocks`, block after block.
pub open spec fn lines_of_blocks(blocks: Seq<Block>) -> Seq<Seq<char>>
    decreases blocks.len(),
{
    if blocks.len() == 0 {
        Seq::empty()
    } else {
        lines_of_blocks(blocks.drop_last()) + block_lines(blocks.last())
    }
}

/// The event of `block`: each field as the last line of its key gives it.
pub open spec fn block_event(block: Block, zone: Seq<char>) -> EventView {
    built(with_properties(blank_builder(), block.body, zone))
}

/// The events of `blocks`, one for one.
pub open spec fn block_events(blocks: Seq<Block>, zone: Seq<char>) -> Seq<EventView> {
    blocks.map_values(|block: Block| block_event(block, zone))
}

impl Default for EventBuilder {
    fn default() -> (builder: Self)
        ensures
            builder@ == blank_builder(),
    {
        EventBuilder::new()
    }
}

impl EventBuilder {
    /// A builder with every field empty.
    pub fn new() -> (builder: EventBuilder)
        ensures
            builder@ == blank_builder(),
    {
        EventBuilder {
            title: String::new(),
            start_date: String::new(),
            end_date: String::new(),
            location: String::new(),
            description: String::new(),
        }
    }

    /// The event of the finished block.
    pub fn build(self) -> (event: Event)
        ensures
            event@ == built(self@),
    {
        Event {
            title: self.title,
            start_date: self.start_date,
            end_date: self.end_date,
            location: self.location,
            description: self.description,
            calendar_id: String::new(),
        }
    }

    /// Takes the line `line` of the open block into the builder.
    pub fn take_line(&mut self, line: &Vec<char>, zone: &str)
        ensures
            final(self)@ == with_property(old(self)@, line@, zone@),
    {
        match cut_once(line, ':') {
            Some((key, value)) => {
                if spells(&key, "SUMMARY") {
                    self.title = text_of(&value);
                } else if spells(&key, "DTSTART") {
                    self.start_date = date_in_zone(text_of(&value).as_str(), zone);
                } else if spells(&key, "DTEND") {
                    self.end_date = date_in_zone(text_of(&value).as_str(), zone);
                } else if spells(&key, "LOCATION") {
                    self.location = text_of(&unescape(&value));
                } else if spells(&key, "DESCRIPTION") {
                    self.description = text_of(&unescape(&value));
                }
            },
            None => {},
        }
    }
}

/// `chars` with its escape sequences replaced.
pub fn unescape(chars: &Vec<char>) -> (out: Vec<char>)
    ensures
        out@ == unescaped(chars@),
{
    let mut out: Vec<char> = Vec::new();
    let mut i: usize = 0;
    assert(chars@.skip(0) == chars@);
    while i < chars.len()
        invariant
            i <= chars.len(),
            out@ + unescaped(chars@.skip(i as int)) == unescaped(chars@),
        decreases chars.len() - i,
    {
        let ghost rest = chars@.skip(i as int);
        assert(rest[0] == chars@[i as int]);
        if chars[i] == '\\' && i + 1 < chars.len() && (chars[i + 1] == 'n' || chars[i + 1] == ','
            || chars[i + 1] == ';') {
            assert(rest[1] == chars@[i + 1]);
            assert(rest.skip(2) == chars@.skip(i + 2));
            let c: char = if chars[i + 1] == 'n' {
                '\n'
            } else {
                chars[i + 1]
            };
            out.push(c);
            i += 2;
        } else {
            if i + 1 < chars.len() {
                assert(rest[1] == chars@[i + 1]);
            }
            assert(rest.skip(1) == chars@.skip(i + 1));
            out.push(chars[i]);
            i += 1;
        }
    }
    out
}

/// `text` with each escape sequence (a backslash and then `n`, a comma or a
/// semicolon) replaced by the character that it stands for.
pub fn unescape_ics_text(text: &str) -> (out: String)
    ensures
        out@ == unescaped(text@),
{
    let chars = chars_of(text);
    text_of(&unescape(&chars))
}

/// The events of the calendar feed `content`, with times shown in the zone
/// named `timezone`, or in UTC where the time zone database has no zone of
/// that name.
pub fn parse_ics(content: &str, timezone: &str) -> (events: Vec<Event>)
    ensures
        event_views(events@) == parsed_events(content@, timezone@),
{
    let zone = resolve_zone(timezone);
    let chars = chars_of(content);
    let lines = cut(&chars, '\n');
    let mut events: Vec<Event> = Vec::new();
    let mut current: Option<EventBuilder> = None;
    let ghost all = feed_lines(content@);
    let ghost goal = after_lines(initial_state(), all, zone@);
    let mut i: usize = 0;
    assert(all.skip(0) == all);
    assert(event_views(events@) == Seq::<EventView>::empty());
    while i < lines.len()
        invariant
            i <= lines.len(),
            views(lines@) == all,
            after_lines(
                ParserState {
                    events: event_views(events@),
                    open: match current {
                        Some(builder) => Some(builder@),
                        None => None,
                    },
                },
                all.skip(i as int),
                zone@,
            ) == goal,
        decreases lines.len() - i,
    {
        let ghost rest = all.skip(i as int);
        assert(rest[0] == lines@[i as int]@);
        assert(rest.drop_first() == all.skip(i + 1));
        let line = trim(&lines[i]);
        if spells(&line, "BEGIN:VEVENT") {
            current = Some(EventBuilder::new());
        } else if spells(&line, "END:VEVENT") {
            match current.take() {
                Some(builder) => {
                    let event = builder.build();
                    assert(event_views(events@.push(event)) == event_views(events@).push(event@));
                    events.push(event);
                },
                None => {},
            }
        } else {
            match current {
                Some(mut builder) => {
                    builder.take_line(&line, zone.as_str());
                    current = Some(builder);
                },
                None => {},
            }
        }
        i += 1;
    }
    events
}

/// The feed that is written line by line as `lines`, with a newline
/// between each two lines.
pub open spec fn feed_text(lines: Seq<Seq<char>>) -> Seq<char> {
    joined(lines, seq!['\n'])
}

/// Whether none of `lines` holds a newline.
pub open spec fn single_lines(lines: Seq<Seq<char>>) -> bool {
    forall|i: int| 0 <= i < lines.len() ==> !holds(#[trigger] lines[i], '\n')
}

/// The lines of a feed that is written line by line are those lines.
pub proof fn lemma_feed_lines_of_text(lines: Seq<Seq<char>>)
    requires
        lines.len() >= 1,
        single_lines(lines),
    ensures
        feed_lines(feed_text(lines)) == lines,
{
    crate::text::split::lemma_split_on_joined(lines, '\n');
}

/// A feed that is written line by line gives the events of those lines.
pub proof fn lemma_parsed_events_of_text(lines: Seq<Seq<char>>, timezone: Seq<char>)
    requires
        single_lines(lines),
    ensures
        parsed_events(feed_text(lines), timezone) == events_of_lines(
            lines,
            display_zone(timezone),
        ),
{
    if lines.len() == 0 {
        let blank = Seq::<char>::empty();
        reveal_strlit("BEGIN:VEVENT");
        reveal_strlit("END:VEVENT");
        assert(feed_text(lines) == blank);
        assert(crate::text::split::position_of(blank, '\n') == 0);
        assert(feed_lines(blank) == seq![blank]);
        assert(trimmed(blank).len() == 0) by {
            assert(blank.skip(0) == blank);
            assert(blank.take(0) == blank);
        }
        let only = seq![blank];
        assert(only.drop_first() == Seq::<Seq<char>>::empty());
        let state = after_line(initial_state(), trimmed(only[0]), display_zone(timezone));
        assert(state == initial_state());
        assert(after_lines(state, only.drop_first(), display_zone(timezone)) == state);
    } else {
        lemma_feed_lines_of_text(lines);
    }
}

/// Text without escape sequences is its own unescaped form.
pub proof fn lemma_unescaped_clean_text(s: Seq<char>)
    requires
        forall|i: int| !escape_at(s, i),
    ensures
        unescaped(s) == s,
    decreases s.len(),
{
    if s.len() > 0 {
        let rest = s.skip(1);
        assert(!escape_at(s, 0));
        assert forall|i: int| !escape_at(rest, i) by {
            if escape_at(rest, i) {
                assert(rest[i] == s[i + 1] && rest[i + 1] == s[i + 2]);
                assert(escape_at(s, i + 1));
            }
        }
        lemma_unescaped_clean_text(rest);
        assert(seq![s[0]] + rest == s);
    }
}

/// The two markers have no whitespace at their ends, so each is a line
/// that is taken for itself.
pub proof fn lemma_markers()
    ensures
        is_begin("BEGIN:VEVENT"@),
        is_end("END:VEVENT"@),
        !is_end("BEGIN:VEVENT"@),
        !is_begin("END:VEVENT"@),
{
    reveal_strlit("BEGIN:VEVENT");
    reveal_strlit("END:VEVENT");
    let begin = "BEGIN:VEVENT"@;
    let end = "END:VEVENT"@;
    assert(begin[0] == 'B' && begin.last() == 'T');
    assert(end[0] == 'E' && end.last() == 'T');
    crate::text::space::lemma_trimmed_unchanged(begin);
    crate::text::space::lemma_trimmed_unchanged(end);
    assert(begin.len() != end.len());
}

/// Lines are taken one after the other: the state after two runs of lines
/// is the state after the second, taken from the state after the first.
pub proof fn lemma_after_lines_concat(
    state: ParserState,
    first: Seq<Seq<char>>,
    second: Seq<Seq<char>>,
    zone: Seq<char>,
)
    ensures
        after_lines(state, first + second, zone) == after_lines(
            after_lines(state, first, zone),
            second,
            zone,
        ),
    decreases first.len(),
{
    if first.len() == 0 {
        assert(first + second == second);
    } else {
        assert((first + second)[0] == first[0]);
        assert((first + second).drop_first() == first.drop_first() + second);
        lemma_after_lines_concat(
            after_line(state, trimmed(first[0]), zone),
            first.drop_first(),
            second,
            zone,
        );
    }
}

/// Outside of a block, lines of which none is a begin marker change
/// nothing.
pub proof fn lemma_outside_lines_are_skipped(
    events: Seq<EventView>,
    lines: Seq<Seq<char>>,
    zone: Seq<char>,
)
    requires
        forall|i: int| 0 <= i < lines.len() ==> !is_begin(#[trigger] lines[i]),
    ensures
        after_lines(ParserState { events, open: None }, lines, zone) == (ParserState {
            events,
            open: None,
        }),
    decreases lines.len(),
{
    if lines.len() > 0 {
        let rest = lines.drop_first();
        assert(!is_begin(lines[0]));
        assert forall|i: int| 0 <= i < rest.len() implies !is_begin(#[trigger] rest[i]) by {
            assert(rest[i] == lines[i + 1]);
        }
        lemma_outside_lines_are_skipped(events, rest, zone);
    }
}

/// Inside a block, lines of which none is a marker set fields of the
/// builder and do nothing else.
pub proof fn lemma_body_lines_set_fields(
    events: Seq<EventView>,
    builder: BuilderView,
    body: Seq<Seq<char>>,
    zone: Seq<char>,
)
    requires
        forall|i: int| 0 <= i < body.len() ==> !is_begin(#[trigger] body[i]) && !is_end(body[i]),
    ensures
        after_lines(ParserState { events, open: Some(builder) }, body, zone) == (ParserState {
            events,
            open: Some(with_properties(builder, body, zone)),
        }),
    decreases body.len(),
{
    if body.len() > 0 {
        let rest = body.drop_first();
        assert(!is_begin(body[0]) && !is_end(body[0]));
        assert forall|i: int| 0 <= i < rest.len() implies !is_begin(#[trigger] rest[i])
            && !is_end(rest[i]) by {
            assert(rest[i] == body[i + 1]);
        }
        lemma_body_lines_set_fields(
            events,
            with_property(builder, trimmed(body[0]), zone),
            rest,
            zone,
        );
    }
}

/// A well-formed block, met outside of a block, adds its event and leaves
/// the parser outside of a block.
pub proof fn lemma_block_adds_its_event(events: Seq<EventView>, block: Block, zone: Seq<char>)
    requires
        well_formed(block),
    ensures
        after_lines(ParserState { events, open: None }, block_lines(block), zone) == (ParserState {
            events: events.push(block_event(block, zone)),
            open: None,
        }),
{
    lemma_markers();
    let outside = ParserState { events, open: None };
    let begin = seq!["BEGIN:VEVENT"@];
    let end = seq!["END:VEVENT"@];
    let opened = ParserState { events, open: Some(blank_builder()) };
    let filled = ParserState {
        events,
        open: Some(with_properties(blank_builder(), block.body, zone)),
    };
    lemma_after_lines_concat(outside, block.before + begin + block.body, end, zone);
    lemma_after_lines_concat(outside, block.before + begin, block.body, zone);
    lemma_after_lines_concat(outside, block.before, begin, zone);
    lemma_outside_lines_are_skipped(events, block.before, zone);
    assert(after_lines(outside, begin, zone) == opened) by {
        assert(begin.drop_first() == Seq::<Seq<char>>::empty());
        assert(after_lines(opened, begin.drop_first(), zone) == opened);
    }
    lemma_body_lines_set_fields(events, blank_builder(), block.body, zone);
    assert(after_lines(filled, end, zone) == ParserState {
        events: events.push(block_event(block, zone)),
        open: None,
    }) by {
        assert(end.drop_first() == Seq::<Seq<char>>::empty());
        let closed = after_line(filled, trimmed(end[0]), zone);
        assert(after_lines(closed, end.drop_first(), zone) == closed);
    }
}

/// A feed of well-formed blocks gives one event for each block, in the
/// order of the blocks, each with the fields that the lines of its block
/// set. Lines behind the last block that are no begin marker change nothing.
pub proof fn lemma_well_formed_feed(blocks: Seq<Block>, after: Seq<Seq<char>>, zone: Seq<char>)
    requires
        forall|i: int| 0 <= i < blocks.len() ==> well_formed(#[trigger] blocks[i]),
        forall|i: int| 0 <= i < after.len() ==> !is_begin(#[trigger] after[i]),
    ensures
        events_of_lines(lines_of_blocks(blocks) + after, zone) == block_events(blocks, zone),
        events_of_lines(lines_of_blocks(blocks) + after, zone).len() == blocks.len(),
        after_lines(initial_state(), lines_of_blocks(blocks) + after, zone).open is None,
    decreases blocks.len(),
{
    let lines = lines_of_blocks(blocks);
    lemma_after_lines_concat(initial_state(), lines, after, zone);
    if blocks.len() == 0 {
        assert(block_events(blocks, zone) == Seq::<EventView>::empty());
        lemma_outside_lines_are_skipped(Seq::empty(), after, zone);
    } else {
        let rest = blocks.drop_last();
        let last = blocks.last();
        assert forall|i: int| 0 <= i < rest.len() implies well_formed(#[trigger] rest[i]) by {
            assert(rest[i] == blocks[i]);
        }
        assert(well_formed(blocks[blocks.len() - 1]));
        lemma_well_formed_feed(rest, Seq::empty(), zone);
        assert(lines_of_blocks(rest) + Seq::<Seq<char>>::empty() == lines_of_blocks(rest));
        lemma_after_lines_concat(initial_state(), lines_of_blocks(rest), block_lines(last), zone);
        lemma_block_adds_its_event(block_events(rest, zone), last, zone);
        assert(block_events(rest, zone).push(block_event(last, zone)) == block_events(
            blocks,
            zone,
        ));
        lemma_outside_lines_are_skipped(block_events(blocks, zone), after, zone);
    }
}

/// Lines of which none is an end marker add no event, whatever the state
/// in which they are met.
pub proof fn lemma_no_end_no_event(state: ParserState, lines: Seq<Seq<char>>, zone: Seq<char>)
    requires
        forall|i: int| 0 <= i < lines.len() ==> !is_end(#[trigger] lines[i]),
    ensures
        after_lines(state, lines, zone).events == state.events,
    decreases lines.len(),
{
    if lines.len() > 0 {
        let rest = lines.drop_first();
        assert(!is_end(lines[0]));
        assert forall|i: int| 0 <= i < rest.len() implies !is_end(#[trigger] rest[i]) by {
            assert(rest[i] == lines[i + 1]);
        }
        lemma_no_end_no_event(after_line(state, trimmed(lines[0]), zone), rest, zone);
    }
}

/// A block that is begun and not ended gives no event, and takes none
/// away from what stands before it or behind it: the feed gives the events
/// that it would give without that block. Here `before` is a feed that
/// ends outside of a block, `body` holds no end marker, and `after` is
/// empty or starts with the begin marker of the next block.
pub proof fn lemma_unterminated_block_is_dropped(
    before: Seq<Seq<char>>,
    body: Seq<Seq<char>>,
    after: Seq<Seq<char>>,
    zone: Seq<char>,
)
    requires
        after_lines(initial_state(), before, zone).open is None,
        forall|i: int| 0 <= i < body.len() ==> !is_end(#[trigger] body[i]),
        after.len() > 0 ==> is_begin(after[0]),
    ensures
        events_of_lines(before + seq!["BEGIN:VEVENT"@] + body + after, zone) == events_of_lines(
            before + after,
            zone,
        ),
{
    lemma_markers();
    let start = initial_state();
    let outside = after_lines(start, before, zone);
    let open_lines = seq!["BEGIN:VEVENT"@] + body;
    assert(before + seq!["BEGIN:VEVENT"@] + body + after == before + (open_lines + after));
    lemma_after_lines_concat(start, before, open_lines + after, zone);
    lemma_after_lines_concat(outside, open_lines, after, zone);
    lemma_after_lines_concat(start, before, after, zone);
    let dangling = after_lines(outside, open_lines, zone);
    assert forall|i: int| 0 <= i < open_lines.len() implies !is_end(#[trigger] open_lines[i]) by {
        if i > 0 {
            assert(open_lines[i] == body[i - 1]);
        }
    }
    lemma_no_end_no_event(outside, open_lines, zone);
    if after.len() > 0 {
        assert(after_line(dangling, trimmed(after[0]), zone) == after_line(
            outside,
            trimmed(after[0]),
            zone,
        ));
    }
}

/// A feed of well-formed blocks, written line by line, is parsed into one
/// event for each block, in the order of the blocks, each with the fields
/// that the lines of its block set, whatever zone is asked for.
pub proof fn lemma_parse_well_formed_text(
    blocks: Seq<Block>,
    after: Seq<Seq<char>>,
    timezone: Seq<char>,
)
    requires
        forall|i: int| 0 <= i < blocks.len() ==> well_formed(#[trigger] blocks[i]),
        forall|i: int| 0 <= i < after.len() ==> !is_begin(#[trigger] after[i]),
        single_lines(lines_of_blocks(blocks) + after),
    ensures
        parsed_events(feed_text(lines_of_blocks(blocks) + after), timezone) == block_events(
            blocks,
            display_zone(timezone),
        ),
        parsed_events(feed_text(lines_of_blocks(blocks) + after), timezone).len() == blocks.len(),
{
    lemma_parsed_events_of_text(lines_of_blocks(blocks) + after, timezone);
    lemma_well_formed_feed(blocks, after, display_zone(timezone));
}

/// A feed that holds a block that is begun and not ended, written line by
/// line, is parsed into the events of the feed without that block.
pub proof fn lemma_parse_drops_unterminated_block(
    before: Seq<Seq<char>>,
    body: Seq<Seq<char>>,
    after: Seq<Seq<char>>,
    timezone: Seq<char>,
)
    requires
        after_lines(initial_state(), before, display_zone(timezone)).open is None,
        forall|i: int| 0 <= i < body.len() ==> !is_end(#[trigger] body[i]),
        after.len() > 0 ==> is_begin(after[0]),
        single_lines(before + seq!["BEGIN:VEVENT"@] + body + after),
    ensures
        parsed_events(feed_text(before + seq!["BEGIN:VEVENT"@] + body + after), timezone)
            == parsed_events(feed_text(before + after), timezone),
{
    let with_block = before + seq!["BEGIN:VEVENT"@] + body + after;
    let without = before + after;
    assert forall|i: int| 0 <= i < without.len() implies !holds(#[trigger] without[i], '\n') by {
        if i < before.len() {
            assert(without[i] == with_block[i]);
        } else {
            assert(without[i] == with_block[i + 1 + body.len()]);
        }
    }
    lemma_parsed_events_of_text(with_block, timezone);
    lemma_parsed_events_of_text(without, timezone);
    lemma_unterminated_block_is_dropped(before, body, after, display_zone(timezone));
}

} // verus!
