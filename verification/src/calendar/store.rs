use vstd::prelude::*;
use crate::calendar::event::copy_events;
use crate::calendar::event::event_views;
use crate::calendar::event::Event;
use crate::calendar::event::EventView;
use crate::text::order::lemma_text_le_transitive;
use crate::text::order::text_le;

verus! {

/// The events of one sync cycle, with the instant at which they were
/// committed.
#[derive(Debug, PartialEq, Eq)]
pub struct EventSnapshot {
    pub events: Vec<Event>,
    pub last_modified: String,
}

/// What an `EventSnapshot` holds, as plain values.
pub struct SnapshotView {
    pub events: Seq<EventView>,
    pub last_modified: Seq<char>,
}

impl View for EventSnapshot {
    type V = SnapshotView;

    open spec fn view(&self) -> SnapshotView {
        SnapshotView { events: event_views(self.events@), last_modified: self.last_modified@ }
    }
}

/// Why a snapshot could not be made durable.
#[derive(Debug, PartialEq, Eq)]
pub struct PersistenceError {
    pub detail: String,
}

/// The holder of the current snapshot. Events and instant stand in one
/// slot and change together.
pub struct EventStore {
    current: EventSnapshot,
}

impl View for EventStore {
    type V = SnapshotView;

    closed spec fn view(&self) -> SnapshotView {
        self.current@
    }
}

/// The snapshot with which a store starts: what was kept from an earlier
/// run, and for what was not kept, no events and the present instant.
pub open spec fn bootstrapped(
    events: Option<Seq<EventView>>,
    last_modified: Option<Seq<char>>,
    now: Seq<char>,
) -> SnapshotView {
    SnapshotView {
        events: match events {
            Some(kept) => kept,
            None => Seq::empty(),
        },
        last_modified: match last_modified {
            Some(kept) => kept,
            None => now,
        },
    }
}

/// The snapshot that a store holds after a commit of `events` at the
/// instant `now`: the new one where it was made durable, the one before
/// where it was not.
pub open spec fn committed(
    before: SnapshotView,
    events: Seq<EventView>,
    now: Seq<char>,
    durable: bool,
) -> SnapshotView {
    if durable {
        SnapshotView { events, last_modified: now }
    } else {
        before
    }
}

impl EventSnapshot {
    /// A copy of this snapshot.
    pub fn duplicate(&self) -> (copy: EventSnapshot)
        ensures
            copy@ == self@,
    {
        EventSnapshot {
            events: copy_events(&self.events),
            last_modified: self.last_modified.clone(),
        }
    }
}

impl EventStore {
    /// A store that starts with what was kept from an earlier run: `events`
    /// and `last_modified` as far as they were kept, else no events and the
    /// instant `now`.
    pub fn bootstrap(events: Option<Vec<Event>>, last_modified: Option<String>, now: String) -> (store:
        EventStore)
        ensures
            store@ == bootstrapped(
                match events {
                    Some(kept) => Some(event_views(kept@)),
                    None => None,
                },
                match last_modified {
                    Some(kept) => Some(kept@),
                    None => None,
                },
                now@,
            ),
    {
        let events = match events {
            Some(kept) => kept,
            None => {
                let none: Vec<Event> = Vec::new();
                assert(event_views(none@) == Seq::<EventView>::empty());
                none
            },
        };
        let last_modified = match last_modified {
            Some(kept) => kept,
            None => now,
        };
        EventStore { current: EventSnapshot { events, last_modified } }
    }

    /// The current snapshot: the events and the instant of one commit.
    pub fn read(&self) -> (snapshot: EventSnapshot)
        ensures
            snapshot@ == self@,
    {
        self.current.duplicate()
    }

    /// The instant of the last commit.
    pub fn last_modified(&self) -> (stamp: String)
        ensures
            stamp@ == self@.last_modified,
    {
        self.current.last_modified.clone()
    }

    /// How many events the current snapshot holds.
    pub fn len(&self) -> (n: usize)
        ensures
            n == self@.events.len(),
    {
        self.current.events.len()
    }

    /// Takes `events`, committed at the instant `now`, as the new snapshot.
    /// `durable` says whether they were made durable: where they were not,
    /// the store keeps the snapshot that it had and hands the error back.
    pub fn commit(&mut self, events: Vec<Event>, now: String, durable: Result<(), PersistenceError>) -> (result:
        Result<(), PersistenceError>)
        ensures
            final(self)@ == committed(old(self)@, event_views(events@), now@, durable is Ok),
            result == durable,
    {
        if durable.is_ok() {
            self.current = EventSnapshot { events, last_modified: now };
        }
        durable
    }
}

/// A read that follows a commit that succeeded gives the events and the
/// instant of that commit, both, whatever the store held before.
pub proof fn lemma_read_after_commit(before: SnapshotView, events: Seq<EventView>, now: Seq<char>)
    ensures
        committed(before, events, now, true).events == events,
        committed(before, events, now, true).last_modified == now,
{
}

/// A commit that could not be made durable leaves the snapshot as it was.
pub proof fn lemma_failed_commit_keeps_snapshot(
    before: SnapshotView,
    events: Seq<EventView>,
    now: Seq<char>,
)
    ensures
        committed(before, events, now, false) == before,
{
}

/// One commit, as the store is told of it.
pub struct Commit {
    /// The events of the cycle.
    pub events: Seq<EventView>,
    /// The instant of the commit.
    pub now: Seq<char>,
    /// Whether the events were made durable.
    pub durable: bool,
}

/// The snapshot that a store holds after the commits `commits`, one after
/// the other, where it held `start` before them.
pub open spec fn after_commits(start: SnapshotView, commits: Seq<Commit>) -> SnapshotView
    decreases commits.len(),
{
    if commits.len() == 0 {
        start
    } else {
        committed(
            after_commits(start, commits.drop_last()),
            commits.last().events,
            commits.last().now,
            commits.last().durable,
        )
    }
}

/// Whether the instants of `commits` do not go back: none is before the
/// instant of `start`, and none is before that of an earlier commit.
pub open spec fn instants_in_order(start: SnapshotView, commits: Seq<Commit>) -> bool {
    &&& forall|i: int|
        0 <= i < commits.len() ==> text_le(start.last_modified, (#[trigger] commits[i]).now)
    &&& forall|i: int, j: int|
        0 <= i <= j < commits.len() ==> text_le(
            (#[trigger] commits[i]).now,
            (#[trigger] commits[j]).now,
        )
}

/// Whatever was committed, the store holds the events and the instant of
/// one and the same commit that was made durable, or it holds what it
/// started with: never the events of one commit with the instant of another.
pub proof fn lemma_snapshot_is_of_one_commit(start: SnapshotView, commits: Seq<Commit>)
    ensures
        after_commits(start, commits) == start || exists|i: int|
            0 <= i < commits.len() && (#[trigger] commits[i]).durable && after_commits(
                start,
                commits,
            ) == (SnapshotView { events: commits[i].events, last_modified: commits[i].now }),
    decreases commits.len(),
{
    if commits.len() > 0 {
        let rest = commits.drop_last();
        let last = commits.last();
        lemma_snapshot_is_of_one_commit(start, rest);
        if last.durable {
            assert(commits[commits.len() - 1] == last);
        } else if after_commits(start, rest) != start {
            let i = choose|i: int|
                0 <= i < rest.len() && (#[trigger] rest[i]).durable && after_commits(start, rest)
                    == (SnapshotView { events: rest[i].events, last_modified: rest[i].now });
            assert(commits[i] == rest[i]);
        }
    }
}

/// While the instants of the commits do not go back, neither does the
/// instant that the store holds: after any number of the commits it is not
/// before what it was after fewer of them.
pub proof fn lemma_last_modified_never_goes_back(
    start: SnapshotView,
    commits: Seq<Commit>,
    fewer: int,
    more: int,
)
    requires
        instants_in_order(start, commits),
        0 <= fewer <= more <= commits.len(),
    ensures
        text_le(
            after_commits(start, commits.take(fewer)).last_modified,
            after_commits(start, commits.take(more)).last_modified,
        ),
    decreases more - fewer,
{
    let earlier = after_commits(start, commits.take(fewer));
    if fewer == more {
        crate::text::order::lemma_text_le_reflexive(earlier.last_modified);
    } else {
        let upto = commits.take(more - 1);
        let last = commits[more - 1];
        let before = after_commits(start, upto);
        lemma_last_modified_never_goes_back(start, commits, fewer, more - 1);
        assert(commits.take(more).drop_last() == upto);
        assert(commits.take(more).last() == last);
        if last.durable {
            lemma_snapshot_is_of_one_commit(start, upto);
            if before != start {
                let i = choose|i: int|
                    0 <= i < upto.len() && (#[trigger] upto[i]).durable && before == (
                    SnapshotView { events: upto[i].events, last_modified: upto[i].now });
                assert(upto[i] == commits[i]);
            }
            assert(text_le(before.last_modified, last.now));
            lemma_text_le_transitive(earlier.last_modified, before.last_modified, last.now);
        }
    }
}

} // verus!
