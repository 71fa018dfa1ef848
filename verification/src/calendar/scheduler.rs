use vstd::prelude::*;
use crate::calendar::event::event_views;
use crate::calendar::event::Event;
use crate::calendar::event::EventView;
use crate::calendar::fetcher::FetchError;
use crate::calendar::ics_parser::parse_ics;
use crate::calendar::ics_parser::parsed_events;
use crate::text::order::lemma_text_le_lt_transitive;
use crate::text::order::lemma_text_le_transitive;
use crate::text::order::lemma_text_lt_implies_le;
use crate::text::order::lemma_text_lt_transitive;
use crate::text::order::stands_before;
use crate::text::order::text_le;
use crate::text::order::text_lt;

verus! {

/// How long the synchronizer waits before its first cycle, in seconds.
pub const INITIAL_DELAY_SECS: u64 = 5;

/// What becomes of a cycle in which every feed failed.
#[derive(Clone, Copy, Debug, PartialEq, Eq, Structural)]
pub enum EmptyCyclePolicy {
    /// It is committed like any other, with no events.
    CommitEmpty,
    /// It is not committed: the snapshot before it stays.
    KeepPrevious,
}

/// What a cycle ends in.
#[derive(Debug, PartialEq, Eq)]
pub enum CycleOutcome {
    /// These events are to be committed.
    Commit(Vec<Event>),
    /// Nothing is to be committed.
    Skip,
}

/// Where the synchronizer stands.
#[derive(Clone, Copy, Debug, PartialEq, Eq, Structural)]
pub enum SyncPhase {
    /// It has not begun.
    Starting,
    /// It waits out the delay before the first cycle.
    Delaying,
    /// Its feed client is being made.
    Preparing,
    /// The feeds of a cycle are being fetched.
    Fetching,
    /// The events of a cycle are being committed.
    Committing,
    /// It sleeps between two cycles.
    Resting,
    /// It has ended, for want of a feed client.
    Stopped,
}

/// What the synchronizer is told.
#[derive(Clone, Copy, Debug, PartialEq, Eq, Structural)]
pub enum SyncEvent {
    /// The process has started.
    Started,
    /// The wait that was asked for is over.
    Waited,
    /// The feed client is there.
    ClientReady,
    /// The feed client could not be made.
    ClientFailed,
    /// Every feed was asked, whatever came of it.
    Fetched,
    /// The commit is over, whether it succeeded, failed or was skipped.
    Committed,
}

/// What the synchronizer asks for next.
#[derive(Clone, Copy, Debug, PartialEq, Eq, Structural)]
pub enum SyncAction {
    /// Wait this many seconds.
    Wait(u64),
    /// Make the feed client.
    MakeClient,
    /// Fetch every feed.
    FetchFeeds,
    /// Merge what was fetched and commit it.
    CommitEvents,
    /// End.
    Stop,
    /// Nothing: the event was not one for this phase.
    Nothing,
}

/// The phase after `event` in `phase`, and what is to be done then, for a
/// synchronizer that rests `refresh_period` seconds between two cycles.
///
/// After the start comes the delay, then the client, then cycle after
/// cycle of fetching, committing and resting. Only a client that cannot be
/// made ends it. An event that does not belong to the phase changes nothing.
pub open spec fn next_step(phase: SyncPhase, event: SyncEvent, refresh_period: u64) -> (
    SyncPhase,
    SyncAction,
) {
    match (phase, event) {
        (SyncPhase::Starting, SyncEvent::Started) => (
            SyncPhase::Delaying,
            SyncAction::Wait(INITIAL_DELAY_SECS),
        ),
        (SyncPhase::Delaying, SyncEvent::Waited) => (SyncPhase::Preparing, SyncAction::MakeClient),
        (SyncPhase::Preparing, SyncEvent::ClientReady) => (
            SyncPhase::Fetching,
            SyncAction::FetchFeeds,
        ),
        (SyncPhase::Preparing, SyncEvent::ClientFailed) => (SyncPhase::Stopped, SyncAction::Stop),
        (SyncPhase::Fetching, SyncEvent::Fetched) => (
            SyncPhase::Committing,
            SyncAction::CommitEvents,
        ),
        (SyncPhase::Committing, SyncEvent::Committed) => (
            SyncPhase::Resting,
            SyncAction::Wait(refresh_period),
        ),
        (SyncPhase::Resting, SyncEvent::Waited) => (SyncPhase::Fetching, SyncAction::FetchFeeds),
        _ => (phase, SyncAction::Nothing),
    }
}

/// Whether a cycle is under way or about to be: the synchronizer fetches,
/// commits or rests.
pub open spec fn in_cycle(phase: SyncPhase) -> bool {
    phase == SyncPhase::Fetching || phase == SyncPhase::Committing || phase == SyncPhase::Resting
}

/// Whether every feed of a cycle failed, and there was one.
pub open spec fn all_failed(feeds: Seq<Option<Seq<char>>>) -> bool {
    feeds.len() > 0 && forall|i: int| 0 <= i < feeds.len() ==> (#[trigger] feeds[i]) is None
}

/// Whether a cycle with these feeds is left uncommitted under `policy`.
pub open spec fn skipped(feeds: Seq<Option<Seq<char>>>, policy: EmptyCyclePolicy) -> bool {
    policy == EmptyCyclePolicy::KeepPrevious && all_failed(feeds)
}

/// Where `event` goes into `sorted`: behind the last event that does not
/// start later than it. Every event from that index on starts later.
pub open spec fn insertion_point(sorted: Seq<EventView>, event: EventView) -> int
    decreases sorted.len(),
{
    if sorted.len() > 0 && text_lt(event.start_date, sorted.last().start_date) {
        insertion_point(sorted.drop_last(), event)
    } else {
        sorted.len() as int
    }
}

/// `sorted` with `event` put in behind the last event that does not start
/// later than it.
pub open spec fn inserted(sorted: Seq<EventView>, event: EventView) -> Seq<EventView> {
    sorted.insert(insertion_point(sorted, event), event)
}

/// `events` in the order of their starts, events of one start in the order
/// in which `events` has them.
pub open spec fn sorted_by_start(events: Seq<EventView>) -> Seq<EventView>
    decreases events.len(),
{
    if events.len() == 0 {
        events
    } else {
        inserted(sorted_by_start(events.drop_last()), events.last())
    }
}

/// Two runs of events in one: at each step, from the ends, the last event
/// of the first run goes last where it starts later than the last of the
/// second, and else the last of the second.
pub open spec fn merged_runs(first: Seq<EventView>, second: Seq<EventView>) -> Seq<EventView>
    decreases first.len() + second.len(),
{
    if first.len() == 0 {
        second
    } else if second.len() == 0 {
        first
    } else if text_lt(second.last().start_date, first.last().start_date) {
        merged_runs(first.drop_last(), second).push(first.last())
    } else {
        merged_runs(first, second.drop_last()).push(second.last())
    }
}

/// Whether no event of `events` starts later than one behind it.
pub open spec fn ordered_by_start(events: Seq<EventView>) -> bool {
    forall|i: int, j: int|
        0 <= i <= j < events.len() ==> text_le(
            (#[trigger] events[i]).start_date,
            (#[trigger] events[j]).start_date,
        )
}

/// What each feed gave: its text where it was had, `None` where it failed.
pub open spec fn bodies(fetched: Seq<Result<String, FetchError>>) -> Seq<Option<Seq<char>>> {
    fetched.map_values(
        |one: Result<String, FetchError>|
            match one {
                Ok(text) => Some(text@),
                Err(_) => None,
            },
    )
}

/// The events of one feed: those of its text, and none where it failed.
pub open spec fn feed_events(body: Option<Seq<char>>, timezone: Seq<char>) -> Seq<EventView> {
    match body {
        Some(text) => parsed_events(text, timezone),
        None => Seq::empty(),
    }
}

/// The events of all the feeds, feed after feed.
pub open spec fn gathered(feeds: Seq<Option<Seq<char>>>, timezone: Seq<char>) -> Seq<EventView>
    decreases feeds.len(),
{
    if feeds.len() == 0 {
        Seq::empty()
    } else {
        gathered(feeds.drop_last(), timezone) + feed_events(feeds.last(), timezone)
    }
}

/// The events of one sync cycle: those of all the feeds that were had, in
/// the order of their starts.
pub open spec fn merged(feeds: Seq<Option<Seq<char>>>, timezone: Seq<char>) -> Seq<EventView> {
    sorted_by_start(gathered(feeds, timezone))
}

/// The insertion point lies within the events; every event from it on
/// starts later than `event`, and the one before it does not.
pub proof fn lemma_insertion_point(sorted: Seq<EventView>, event: EventView)
    ensures
        0 <= insertion_point(sorted, event) <= sorted.len(),
        forall|j: int|
            insertion_point(sorted, event) <= j < sorted.len() ==> text_lt(
                event.start_date,
                (#[trigger] sorted[j]).start_date,
            ),
        insertion_point(sorted, event) > 0 ==> !text_lt(
            event.start_date,
            sorted[insertion_point(sorted, event) - 1].start_date,
        ),
    decreases sorted.len(),
{
    if sorted.len() > 0 && text_lt(event.start_date, sorted.last().start_date) {
        lemma_insertion_point(sorted.drop_last(), event);
        let k = insertion_point(sorted, event);
        assert forall|j: int| k <= j < sorted.len() implies text_lt(
            event.start_date,
            (#[trigger] sorted[j]).start_date,
        ) by {
            if j < sorted.len() - 1 {
                assert(sorted[j] == sorted.drop_last()[j]);
            }
        }
    }
}

/// Sorting keeps the number of events.
pub proof fn lemma_sorted_len(events: Seq<EventView>)
    ensures
        sorted_by_start(events).len() == events.len(),
    decreases events.len(),
{
    if events.len() > 0 {
        lemma_sorted_len(events.drop_last());
        lemma_insertion_point(sorted_by_start(events.drop_last()), events.last());
    }
}

/// In the result of sorting no event starts later than one behind it.
pub proof fn lemma_sorted_is_ordered(events: Seq<EventView>)
    ensures
        ordered_by_start(sorted_by_start(events)),
    decreases events.len(),
{
    if events.len() > 0 {
        let before = sorted_by_start(events.drop_last());
        let event = events.last();
        let k = insertion_point(before, event);
        let after = before.insert(k, event);
        lemma_sorted_is_ordered(events.drop_last());
        lemma_insertion_point(before, event);
        crate::text::order::lemma_text_le_reflexive(event.start_date);
        assert forall|i: int, j: int| 0 <= i <= j < after.len() implies text_le(
            (#[trigger] after[i]).start_date,
            (#[trigger] after[j]).start_date,
        ) by {
            if j < k {
                assert(after[i] == before[i] && after[j] == before[j]);
            } else if j == k {
                if i < k {
                    assert(after[i] == before[i]);
                    assert(text_le(before[i].start_date, before[k - 1].start_date));
                    lemma_text_le_transitive(
                        before[i].start_date,
                        before[k - 1].start_date,
                        event.start_date,
                    );
                }
            } else {
                assert(after[j] == before[j - 1]);
                if i < k {
                    assert(after[i] == before[i]);
                } else if i == k {
                    lemma_text_lt_implies_le(event.start_date, before[j - 1].start_date);
                } else {
                    assert(after[i] == before[i - 1]);
                }
            }
        }
    }
}

/// Of events that all start at another time none starts at `start`.
proof fn lemma_none_at_start(events: Seq<EventView>, start: Seq<char>)
    requires
        forall|j: int| 0 <= j < events.len() ==> (#[trigger] events[j]).start_date != start,
    ensures
        events.filter(|event: EventView| event.start_date == start) == Seq::<EventView>::empty(),
    decreases events.len(),
{
    reveal(Seq::filter);
    if events.len() > 0 {
        let rest = events.drop_last();
        assert forall|j: int| 0 <= j < rest.len() implies (#[trigger] rest[j]).start_date
            != start by {
            assert(rest[j] == events[j]);
        }
        lemma_none_at_start(rest, start);
        assert(events.last() == events[events.len() - 1]);
    }
}

/// Sorting moves no event past another of the same start: the events of
/// any one start stand in the result in the order in which they were given.
pub proof fn lemma_sorted_is_stable(events: Seq<EventView>, start: Seq<char>)
    ensures
        sorted_by_start(events).filter(|event: EventView| event.start_date == start)
            == events.filter(|event: EventView| event.start_date == start),
    decreases events.len(),
{
    let at_start = |event: EventView| event.start_date == start;
    if events.len() > 0 {
        let before = sorted_by_start(events.drop_last());
        let event = events.last();
        let k = insertion_point(before, event);
        lemma_sorted_is_stable(events.drop_last(), start);
        lemma_insertion_point(before, event);
        let head = before.take(k);
        let tail = before.skip(k);
        assert(before == head + tail);
        assert(before.insert(k, event) == head + seq![event] + tail);
        Seq::filter_distributes_over_add(head, tail, at_start);
        Seq::filter_distributes_over_add(head + seq![event], tail, at_start);
        Seq::filter_distributes_over_add(head, seq![event], at_start);
        assert(seq![event].filter(at_start) == if event.start_date == start {
            seq![event]
        } else {
            Seq::<EventView>::empty()
        }) by {
            reveal_with_fuel(Seq::filter, 2);
            assert(seq![event].drop_last() == Seq::<EventView>::empty());
        }
        assert(events.filter(at_start) == if event.start_date == start {
            events.drop_last().filter(at_start).push(event)
        } else {
            events.drop_last().filter(at_start)
        }) by {
            reveal(Seq::filter);
        }
        if event.start_date == start {
            assert forall|j: int| 0 <= j < tail.len() implies (#[trigger] tail[j]).start_date
                != start by {
                assert(tail[j] == before[k + j]);
                crate::text::order::lemma_bytes_lt_irreflexive(vstd::utf8::encode_utf8(start));
            }
            lemma_none_at_start(tail, start);
        }
    }
}

/// Sorting keeps every event, as often as it was given.
pub proof fn lemma_sorted_same_events(events: Seq<EventView>)
    ensures
        sorted_by_start(events).to_multiset() == events.to_multiset(),
    decreases events.len(),
{
    broadcast use vstd::seq_lib::group_to_multiset_ensures;

    if events.len() > 0 {
        let before = sorted_by_start(events.drop_last());
        let event = events.last();
        let k = insertion_point(before, event);
        lemma_sorted_same_events(events.drop_last());
        lemma_insertion_point(before, event);
        let after = before.insert(k, event);
        assert(after.remove(k) == before);
        assert(after[k] == event);
        assert(after.to_multiset() == before.to_multiset().insert(event)) by {
            assert(after.remove(k).to_multiset() == after.to_multiset().remove(after[k]));
            assert(after.to_multiset().count(event) > 0) by {
                assert(after.contains(event));
            }
            assert(after.to_multiset() =~= after.to_multiset().remove(event).insert(event));
        }
        assert(events == events.drop_last().push(event));
        assert(events.to_multiset() == events.drop_last().to_multiset().insert(event));
    } else {
        assert(sorted_by_start(events) == events);
    }
}

/// A feed that failed gives the cycle no event and takes none away: the
/// events gathered are those of the other feeds.
pub proof fn lemma_failed_feed_adds_nothing(
    feeds: Seq<Option<Seq<char>>>,
    timezone: Seq<char>,
    failed: int,
)
    requires
        0 <= failed < feeds.len(),
        feeds[failed] is None,
    ensures
        gathered(feeds, timezone) == gathered(feeds.remove(failed), timezone),
    decreases feeds.len(),
{
    if failed == feeds.len() - 1 {
        assert(feeds.remove(failed) == feeds.drop_last());
    } else {
        lemma_failed_feed_adds_nothing(feeds.drop_last(), timezone, failed);
        assert(feeds.remove(failed).drop_last() == feeds.drop_last().remove(failed));
        assert(feeds.remove(failed).last() == feeds.last());
    }
}

/// To put an event into two merged runs is to put it into the second run
/// and merge then.
proof fn lemma_insert_into_merged(first: Seq<EventView>, second: Seq<EventView>, event: EventView)
    ensures
        inserted(merged_runs(first, second), event) == merged_runs(first, inserted(second, event)),
    decreases first.len() + second.len(),
{
    let k = insertion_point(second, event);
    let grown = inserted(second, event);
    lemma_insertion_point(second, event);
    if first.len() > 0 {
        let top = first.last();
        assert(grown.len() == second.len() + 1);
        if text_lt(grown.last().start_date, top.start_date) {
            let below = merged_runs(first.drop_last(), second);
            lemma_insert_into_merged(first.drop_last(), second, event);
            if k == second.len() {
                assert(grown.last() == event);
                if second.len() > 0 {
                    assert(second[k - 1] == second.last());
                    lemma_text_le_lt_transitive(
                        second.last().start_date,
                        event.start_date,
                        top.start_date,
                    );
                }
            } else {
                assert(grown.last() == second.last());
                assert(second[second.len() - 1] == second.last());
                lemma_text_lt_transitive(
                    event.start_date,
                    second.last().start_date,
                    top.start_date,
                );
            }
            assert(merged_runs(first, second) == below.push(top));
            lemma_insertion_point(below, event);
            assert(below.push(top).drop_last() == below);
            assert(below.push(top).insert(insertion_point(below, event), event) == below.insert(
                insertion_point(below, event),
                event,
            ).push(top));
        } else if k == second.len() {
            let both = merged_runs(first, second);
            assert(grown.last() == event);
            assert(grown.drop_last() == second);
            assert(both.len() > 0 && (both.last() == top || (second.len() > 0 && both.last()
                == second.last())));
            if second.len() > 0 {
                assert(second[k - 1] == second.last());
            }
            assert(both.insert(both.len() as int, event) == both.push(event));
        } else {
            let bottom = second.last();
            let below = merged_runs(first, second.drop_last());
            assert(grown.last() == bottom);
            assert(second[second.len() - 1] == bottom);
            assert(grown.drop_last() == second.drop_last().insert(k, event));
            lemma_insert_into_merged(first, second.drop_last(), event);
            assert(merged_runs(first, second) == below.push(bottom));
            lemma_insertion_point(below, event);
            assert(below.push(bottom).drop_last() == below);
            assert(below.push(bottom).insert(insertion_point(below, event), event)
                == below.insert(insertion_point(below, event), event).push(bottom));
        }
    }
}

/// To sort two runs of events in a row is to sort each and merge the two.
pub proof fn lemma_sorted_concat(first: Seq<EventView>, second: Seq<EventView>)
    ensures
        sorted_by_start(first + second) == merged_runs(
            sorted_by_start(first),
            sorted_by_start(second),
        ),
    decreases second.len(),
{
    if second.len() == 0 {
        assert(first + second == first);
        let sorted = sorted_by_start(first);
        assert(merged_runs(sorted, Seq::empty()) == sorted);
    } else {
        let rest = second.drop_last();
        assert((first + second).drop_last() == first + rest);
        assert((first + second).last() == second.last());
        lemma_sorted_concat(first, rest);
        lemma_insert_into_merged(sorted_by_start(first), sorted_by_start(rest), second.last());
    }
}

/// The two runs `first` and `second` in one.
fn merge_runs(first: Vec<Event>, second: Vec<Event>) -> (both: Vec<Event>)
    ensures
        event_views(both@) == merged_runs(event_views(first@), event_views(second@)),
{
    let ghost goal = merged_runs(event_views(first@), event_views(second@));
    let mut first = first;
    let mut second = second;
    let mut behind: Vec<Event> = Vec::new();
    assert(event_views(behind@).reverse() == Seq::<EventView>::empty());
    while first.len() > 0 && second.len() > 0
        invariant
            goal == merged_runs(event_views(first@), event_views(second@)) + event_views(
                behind@,
            ).reverse(),
        decreases first.len() + second.len(),
    {
        let ghost run_a = event_views(first@);
        let ghost run_b = event_views(second@);
        let ghost tail = event_views(behind@).reverse();
        let a: usize = first.len() - 1;
        let b: usize = second.len() - 1;
        assert(run_a.last() == first@[a as int]@ && run_b.last() == second@[b as int]@);
        let from_first = stands_before(second[b].start_date.as_str(), first[a].start_date.as_str());
        let moved = if from_first {
            first.pop()
        } else {
            second.pop()
        };
        match moved {
            Some(event) => {
                proof {
                    assert(event_views(first@) == if from_first {
                        run_a.drop_last()
                    } else {
                        run_a
                    });
                    assert(event_views(second@) == if from_first {
                        run_b
                    } else {
                        run_b.drop_last()
                    });
                    let grown = event_views(behind@.push(event));
                    assert(grown == event_views(behind@).push(event@));
                    assert(grown.reverse() == seq![event@] + tail);
                    let inner = merged_runs(event_views(first@), event_views(second@));
                    assert(inner.push(event@) + tail == inner + (seq![event@] + tail));
                }
                behind.push(event);
            },
            None => {},
        }
    }
    let mut both = if first.len() > 0 {
        first
    } else {
        second
    };
    while behind.len() > 0
        invariant
            goal == event_views(both@) + event_views(behind@).reverse(),
        decreases behind.len(),
    {
        let ghost done = event_views(both@);
        let ghost left = event_views(behind@);
        match behind.pop() {
            Some(event) => {
                proof {
                    assert(event_views(behind@) == left.drop_last());
                    assert(left.reverse() == seq![event@] + left.drop_last().reverse());
                    assert(event_views(both@.push(event)) == done.push(event@));
                    assert(done.push(event@) + left.drop_last().reverse() == done + (seq![
                        event@,
                    ] + left.drop_last().reverse()));
                }
                both.push(event);
            },
            None => {},
        }
    }
    assert(event_views(behind@).reverse() == Seq::<EventView>::empty());
    both
}

/// `events` in the order of their starts.
fn sorted_run(events: Vec<Event>) -> (sorted: Vec<Event>)
    ensures
        event_views(sorted@) == sorted_by_start(event_views(events@)),
    decreases events.len(),
{
    let ghost given = event_views(events@);
    if events.len() <= 1 {
        proof {
            if given.len() == 1 {
                assert(given.drop_last() == Seq::<EventView>::empty());
                assert(sorted_by_start(given.drop_last()) == Seq::<EventView>::empty());
                assert(Seq::<EventView>::empty().insert(0, given.last()) == given);
            }
        }
        return events;
    }
    let mut first = events;
    let middle: usize = first.len() / 2;
    let second = first.split_off(middle);
    proof {
        assert(given == event_views(first@) + event_views(second@));
        lemma_sorted_concat(event_views(first@), event_views(second@));
    }
    let first = sorted_run(first);
    let second = sorted_run(second);
    merge_runs(first, second)
}

/// Puts `events` in the order of their starts; events of one start keep
/// their order.
pub fn sort_by_start(events: &mut Vec<Event>)
    ensures
        event_views(final(events)@) == sorted_by_start(event_views(old(events)@)),
{
    let mut taken: Vec<Event> = Vec::new();
    std::mem::swap(events, &mut taken);
    let mut sorted = sorted_run(taken);
    std::mem::swap(events, &mut sorted);
}

/// The events of one sync cycle: those of every feed that was had, read for
/// the zone `timezone`, in the order of their starts. A feed that failed
/// gives none, and takes none of the others away.
pub fn merge_feeds(fetched: &Vec<Result<String, FetchError>>, timezone: &str) -> (events: Vec<Event>)
    ensures
        event_views(events@) == merged(bodies(fetched@), timezone@),
{
    let mut events: Vec<Event> = Vec::new();
    let mut i: usize = 0;
    assert(bodies(fetched@).take(0) == Seq::<Option<Seq<char>>>::empty());
    assert(event_views(events@) == Seq::<EventView>::empty());
    while i < fetched.len()
        invariant
            i <= fetched.len(),
            event_views(events@) == gathered(bodies(fetched@).take(i as int), timezone@),
        decreases fetched.len() - i,
    {
        let ghost upto = bodies(fetched@).take(i + 1);
        assert(upto.drop_last() == bodies(fetched@).take(i as int));
        assert(upto.last() == bodies(fetched@)[i as int]);
        match &fetched[i] {
            Ok(text) => {
                let mut found = parse_ics(text.as_str(), timezone);
                let ghost before = events@;
                let ghost added = found@;
                events.append(&mut found);
                assert(event_views(before + added) == event_views(before) + event_views(added));
            },
            Err(_) => {
                assert(event_views(events@) + Seq::<EventView>::empty() == event_views(events@));
            },
        }
        i += 1;
    }
    assert(bodies(fetched@).take(fetched.len() as int) == bodies(fetched@));
    sort_by_start(&mut events);
    events
}

/// Whether every feed failed, and there was one.
fn every_feed_failed(fetched: &Vec<Result<String, FetchError>>) -> (yes: bool)
    ensures
        yes == all_failed(bodies(fetched@)),
{
    let mut i: usize = 0;
    while i < fetched.len()
        invariant
            i <= fetched.len(),
            forall|j: int| 0 <= j < i ==> (#[trigger] bodies(fetched@)[j]) is None,
        decreases fetched.len() - i,
    {
        if fetched[i].is_ok() {
            assert(bodies(fetched@)[i as int] is Some);
            return false;
        }
        i += 1;
    }
    fetched.len() > 0
}

/// What a cycle that fetched `fetched` ends in: under `KeepPrevious` a
/// cycle in which every feed failed is skipped; any other cycle commits the
/// merged events of its feeds.
pub fn cycle_outcome(
    fetched: &Vec<Result<String, FetchError>>,
    timezone: &str,
    policy: EmptyCyclePolicy,
) -> (outcome: CycleOutcome)
    ensures
        match outcome {
            CycleOutcome::Commit(events) => !skipped(bodies(fetched@), policy) && event_views(
                events@,
            ) == merged(bodies(fetched@), timezone@),
            CycleOutcome::Skip => skipped(bodies(fetched@), policy),
        },
{
    let skip = match policy {
        EmptyCyclePolicy::KeepPrevious => every_feed_failed(fetched),
        EmptyCyclePolicy::CommitEmpty => false,
    };
    if skip {
        CycleOutcome::Skip
    } else {
        CycleOutcome::Commit(merge_feeds(fetched, timezone))
    }
}

/// The phase after `event` in `phase`, and what is to be done then.
pub fn step(phase: SyncPhase, event: SyncEvent, refresh_period: u64) -> (next: (
    SyncPhase,
    SyncAction,
))
    ensures
        next == next_step(phase, event, refresh_period),
{
    match (phase, event) {
        (SyncPhase::Starting, SyncEvent::Started) => (
            SyncPhase::Delaying,
            SyncAction::Wait(INITIAL_DELAY_SECS),
        ),
        (SyncPhase::Delaying, SyncEvent::Waited) => (SyncPhase::Preparing, SyncAction::MakeClient),
        (SyncPhase::Preparing, SyncEvent::ClientReady) => (
            SyncPhase::Fetching,
            SyncAction::FetchFeeds,
        ),
        (SyncPhase::Preparing, SyncEvent::ClientFailed) => (SyncPhase::Stopped, SyncAction::Stop),
        (SyncPhase::Fetching, SyncEvent::Fetched) => (
            SyncPhase::Committing,
            SyncAction::CommitEvents,
        ),
        (SyncPhase::Committing, SyncEvent::Committed) => (
            SyncPhase::Resting,
            SyncAction::Wait(refresh_period),
        ),
        (SyncPhase::Resting, SyncEvent::Waited) => (SyncPhase::Fetching, SyncAction::FetchFeeds),
        _ => (phase, SyncAction::Nothing),
    }
}

/// Once a cycle is under way the synchronizer never ends: whatever it is
/// told, it stays in a cycle. A commit that failed is told like one that
/// succeeded, so it cannot end the loop either.
pub proof fn lemma_cycles_never_end(phase: SyncPhase, event: SyncEvent, refresh_period: u64)
    requires
        in_cycle(phase),
    ensures
        in_cycle(next_step(phase, event, refresh_period).0),
        next_step(phase, event, refresh_period).1 != SyncAction::Stop,
{
}

/// Feeds that all failed give no event.
proof fn lemma_gathered_nothing(feeds: Seq<Option<Seq<char>>>, timezone: Seq<char>)
    requires
        forall|i: int| 0 <= i < feeds.len() ==> (#[trigger] feeds[i]) is None,
    ensures
        gathered(feeds, timezone) == Seq::<EventView>::empty(),
    decreases feeds.len(),
{
    if feeds.len() > 0 {
        let rest = feeds.drop_last();
        assert forall|i: int| 0 <= i < rest.len() implies (#[trigger] rest[i]) is None by {
            assert(rest[i] == feeds[i]);
        }
        lemma_gathered_nothing(rest, timezone);
        assert(feeds.last() == feeds[feeds.len() - 1]);
    }
}

/// A cycle in which every feed failed commits no events, where it commits.
pub proof fn lemma_all_failed_gathers_nothing(feeds: Seq<Option<Seq<char>>>, timezone: Seq<char>)
    requires
        forall|i: int| 0 <= i < feeds.len() ==> (#[trigger] feeds[i]) is None,
    ensures
        merged(feeds, timezone) == Seq::<EventView>::empty(),
{
    lemma_gathered_nothing(feeds, timezone);
}

} // verus!
