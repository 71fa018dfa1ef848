use vstd::prelude::*;

verus! {

/// One calendar entry, with its times already in display form.
#[derive(Debug, PartialEq, Eq)]
pub struct Event {
    pub title: String,
    pub start_date: String,
    pub end_date: String,
    pub location: String,
    pub description: String,
    pub calendar_id: String,
}

/// What an `Event` holds, as plain text.
pub struct EventView {
    pub title: Seq<char>,
    pub start_date: Seq<char>,
    pub end_date: Seq<char>,
    pub location: Seq<char>,
    pub description: Seq<char>,
    pub calendar_id: Seq<char>,
}

impl View for Event {
    type V = EventView;

    open spec fn view(&self) -> EventView {
        EventView {
            title: self.title@,
            start_date: self.start_date@,
            end_date: self.end_date@,
            location: self.location@,
            description: self.description@,
            calendar_id: self.calendar_id@,
        }
    }
}

impl Clone for Event {
    fn clone(&self) -> (copy: Self)
        ensures
            copy@ == self@,
    {
        Event {
            title: self.title.clone(),
            start_date: self.start_date.clone(),
            end_date: self.end_date.clone(),
            location: self.location.clone(),
            description: self.description.clone(),
            calendar_id: self.calendar_id.clone(),
        }
    }
}

/// The views of `events`, one for one.
pub open spec fn event_views(events: Seq<Event>) -> Seq<EventView> {
    events.map_values(|event: Event| event@)
}

/// A copy of `events`.
pub fn copy_events(events: &Vec<Event>) -> (copy: Vec<Event>)
    ensures
        event_views(copy@) == event_views(events@),
{
    let mut copy: Vec<Event> = Vec::new();
    let mut i: usize = 0;
    while i < events.len()
        invariant
            i <= events.len(),
            event_views(copy@) == event_views(events@.take(i as int)),
        decreases events.len() - i,
    {
        let event = events[i].clone();
        proof {
            assert(events@.take(i + 1) == events@.take(i as int).push(events@[i as int]));
            assert(event_views(copy@.push(event)) == event_views(copy@).push(event@));
            assert(event_views(events@.take(i as int).push(events@[i as int])) == event_views(
                events@.take(i as int),
            ).push(events@[i as int]@));
        }
        copy.push(event);
        i += 1;
    }
    assert(events@.take(events.len() as int) == events@);
    copy
}

} // verus!
