use vstd::prelude::*;
use chrono::offset::LocalResult;
use chrono::Local;
use chrono::NaiveDateTime;
use chrono::TimeZone;
use crate::calendar::event::event_views;
use crate::calendar::event::Event;
use crate::calendar::event::EventView;

verus! {

/// A point in time: whole seconds since the start of 1970 in UTC, and the
/// nanoseconds past them.
#[derive(Clone, Copy, Debug, PartialEq, Eq, Structural)]
pub struct Instant {
    pub secs: i64,
    pub nanos: u32,
}

/// Whether `a` is the same point in time as `b` or a later one.
pub open spec fn not_before(a: Instant, b: Instant) -> bool {
    a.secs > b.secs || (a.secs == b.secs && a.nanos >= b.nanos)
}

/// Whether an event that ends at `end` is still to be shown at `now`: its
/// end is known and has not passed.
pub open spec fn still_ahead(end: Option<Instant>, now: Instant) -> bool {
    match end {
        Some(at) => not_before(at, now),
        None => false,
    }
}

/// The items of `items` whose place in `keep` holds `true`, in their
/// order. The two are of one length.
pub open spec fn selected<A>(items: Seq<A>, keep: Seq<bool>) -> Seq<A>
    decreases items.len(),
{
    if items.len() == 0 || keep.len() != items.len() {
        Seq::empty()
    } else {
        let before = selected(items.drop_last(), keep.drop_last());
        if keep.last() {
            before.push(items.last())
        } else {
            before
        }
    }
}

/// The end of the event at index `i`, where `ends` gives one.
pub open spec fn end_at(ends: Seq<Option<Instant>>, i: int) -> Option<Instant> {
    if 0 <= i < ends.len() {
        ends[i]
    } else {
        None
    }
}

/// For each of `count` events, whether it is still ahead at `now`.
pub open spec fn ahead_flags(ends: Seq<Option<Instant>>, now: Instant, count: nat) -> Seq<bool> {
    Seq::new(count, |i: int| still_ahead(end_at(ends, i), now))
}

/// The events that are still ahead at `now`, where `ends` holds the end of
/// each as a point in time.
pub open spec fn events_ahead(events: Seq<EventView>, ends: Seq<Option<Instant>>, now: Instant)
    -> Seq<EventView> {
    selected(events, ahead_flags(ends, now, events.len()))
}

/// chrono: `NaiveDateTime::parse_from_str` with `%Y-%m-%d %H:%M:%S`, then
/// `Local.from_local_datetime`, taken only where it gives one point in
/// time, then `timestamp` and `timestamp_subsec_nanos`. Nothing is stated
/// of the result: it depends on the time zone of the machine.
#[verifier::external_body]
pub(crate) fn local_end_instant(end_date: &str) -> (end: Option<Instant>) {
    match NaiveDateTime::parse_from_str(end_date, "%Y-%m-%d %H:%M:%S") {
        Ok(naive) => match Local.from_local_datetime(&naive) {
            LocalResult::Single(at) => Some(
                Instant { secs: at.timestamp(), nanos: at.timestamp_subsec_nanos() },
            ),
            _ => None,
        },
        Err(_) => None,
    }
}

/// Whether an event that ends at `end` is still to be shown at `now`.
pub fn is_upcoming(end: Option<Instant>, now: Instant) -> (yes: bool)
    ensures
        yes == still_ahead(end, now),
{
    match end {
        Some(at) => at.secs > now.secs || (at.secs == now.secs && at.nanos >= now.nanos),
        None => false,
    }
}

/// The events of `events` that are still ahead at `now`, in their order,
/// where `ends` holds the end of each as a point in time, and `None` for
/// an end that is not known.
pub fn select_upcoming(events: &Vec<Event>, ends: &Vec<Option<Instant>>, now: Instant) -> (ahead:
    Vec<Event>)
    ensures
        event_views(ahead@) == events_ahead(event_views(events@), ends@, now),
{
    let mut ahead: Vec<Event> = Vec::new();
    let ghost all = event_views(events@);
    let mut i: usize = 0;
    assert(event_views(ahead@) == selected(all.take(0), ahead_flags(ends@, now, 0)));
    while i < events.len()
        invariant
            i <= events.len(),
            all == event_views(events@),
            event_views(ahead@) == selected(all.take(i as int), ahead_flags(ends@, now, i as nat)),
        decreases events.len() - i,
    {
        let end: Option<Instant> = if i < ends.len() {
            ends[i]
        } else {
            None
        };
        proof {
            let flags = ahead_flags(ends@, now, (i + 1) as nat);
            assert(flags.drop_last() == ahead_flags(ends@, now, i as nat));
            assert(flags.last() == still_ahead(end, now));
            assert(all.take(i + 1).drop_last() == all.take(i as int));
            assert(all.take(i + 1).last() == events@[i as int]@);
        }
        if is_upcoming(end, now) {
            let event = events[i].clone();
            assert(event_views(ahead@.push(event)) == event_views(ahead@).push(event@));
            ahead.push(event);
        }
        i += 1;
    }
    assert(all.take(events.len() as int) == all);
    ahead
}

/// The events of `events` that the clock and the time zone of this machine
/// place at or after `now`, in their order: those whose end is a date and
/// time that stands for one point in local time, and that point has not
/// passed.
pub fn upcoming_events(events: &Vec<Event>, now: Instant) -> (ahead: Vec<Event>)
    ensures
        exists|ends: Seq<Option<Instant>>|
            ends.len() == events.len() && event_views(ahead@) == #[trigger] events_ahead(
                event_views(events@),
                ends,
                now,
            ),
{
    let mut ends: Vec<Option<Instant>> = Vec::new();
    let mut i: usize = 0;
    while i < events.len()
        invariant
            i <= events.len(),
            ends.len() == i,
        decreases events.len() - i,
    {
        ends.push(local_end_instant(events[i].end_date.as_str()));
        i += 1;
    }
    select_upcoming(events, &ends, now)
}

} // verus!
