//! The timeline: an append-only log of events, in the order in which they
//! were appended.

use vstd::prelude::*;
use crate::events::{event_views, Event, EventKind, EventView};
use crate::text::same_text;

verus! {

/// The timeline.
pub struct Timeline {
    /// The events, oldest first.
    pub events: Vec<Event>,
    /// The identifier that the next event will get.
    pub next_id: u128,
}

/// The events of a sequence whose kind has the given name, in their
/// order.
pub open spec fn of_kind(events: Seq<EventView>, name: Seq<char>) -> Seq<EventView>
    decreases events.len(),
{
    if events.len() == 0 {
        Seq::empty()
    } else if events.last().kind.name() == name {
        of_kind(events.drop_last(), name).push(events.last())
    } else {
        of_kind(events.drop_last(), name)
    }
}

impl Timeline {
    /// The events as plain data, oldest first.
    pub open spec fn view(self) -> Seq<EventView> {
        event_views(self.events@)
    }

    /// Identifiers grow strictly along the log, and the next identifier
    /// is greater than all that were given out.
    pub open spec fn wf(self) -> bool {
        &&& forall|i: int, j: int|
            0 <= i < j < self.events@.len() ==> (#[trigger] self.events@[i]).id < (
            #[trigger] self.events@[j]).id
        &&& forall|i: int| 0 <= i < self.events@.len() ==> (#[trigger] self.events@[i]).id < self.next_id
    }

    /// An empty timeline.  Identifiers start at 1.
    pub fn new() -> (timeline: Timeline)
        ensures
            timeline.wf(),
            timeline.view() == Seq::<EventView>::empty(),
            timeline.next_id == 1,
    {
        let timeline = Timeline { events: Vec::new(), next_id: 1 };
        assert(timeline.view() =~= Seq::<EventView>::empty());
        timeline
    }

    /// Appends an event, stamped with the next identifier, and returns
    /// that identifier, which is greater than that of every event appended
    /// before.  Nothing that was in the log changes.  Where the
    /// identifiers are used up, nothing is appended.
    pub fn append(&mut self, event: Event) -> (r: Option<u128>)
        requires
            old(self).wf(),
        ensures
            final(self).wf(),
            match r {
                Some(id) => {
                    &&& id == old(self).next_id
                    &&& final(self).next_id == id + 1
                    &&& final(self).view() == old(self).view().push(EventView { id, ..event@ })
                    &&& forall|i: int|
                        0 <= i < old(self).view().len() ==> (#[trigger] old(self).view()[i]).id
                            < id
                },
                None => old(self).next_id == u128::MAX && *final(self) == *old(self),
            },
    {
        if self.next_id == u128::MAX {
            return None;
        }
        let id = self.next_id;
        let ghost before = self.events@;
        assert forall|i: int| 0 <= i < self.view().len() implies (#[trigger] self.view()[i]).id
            < id by {
            assert(self.view()[i] == self.events@[i]@);
        }
        let stamped = event.stamped(id);
        self.events.push(stamped);
        self.next_id = id + 1;
        assert(self.view() =~= event_views(before).push(EventView { id, ..event@ }));
        assert forall|i: int, j: int| 0 <= i < j < self.events@.len() implies (
        #[trigger] self.events@[i]).id < (#[trigger] self.events@[j]).id by {
            assert(self.events@[i] == before[i]);
            if j < before.len() {
                assert(self.events@[j] == before[j]);
            }
        }
        assert forall|i: int| 0 <= i < self.events@.len() implies (
        #[trigger] self.events@[i]).id < self.next_id by {
            if i < before.len() {
                assert(self.events@[i] == before[i]);
            }
        }
        Some(id)
    }

    /// Makes an event of the given kind, now and on the default channel,
    /// and appends it.  The event as it stands in the log is returned: its
    /// identifier is the next one, which is greater than that of every
    /// event made before.  Where the identifiers are used up, no event is
    /// made.
    pub fn record(&mut self, kind: EventKind) -> (r: Option<Event>)
        requires
            old(self).wf(),
        ensures
            final(self).wf(),
            match r {
                Some(event) => {
                    &&& event.kind@ == kind@
                    &&& event@.channels == seq!["default"@]
                    &&& event.id == old(self).next_id
                    &&& final(self).next_id == event.id + 1
                    &&& final(self).view() == old(self).view().push(event@)
                    &&& forall|i: int|
                        0 <= i < old(self).view().len() ==> (#[trigger] old(self).view()[i]).id
                            < event.id
                },
                None => old(self).next_id == u128::MAX && *final(self) == *old(self),
            },
    {
        let event = Event::new(kind);
        let ghost made = event@;
        match self.append(event) {
            Some(id) => {
                assert(self.view().len() == old(self).view().len() + 1);
                assert(self.events@.len() == self.view().len());
                let last: usize = self.events.len() - 1;
                assert(self.view()[last as int] == self.events@[last as int]@);
                let stored = self.events[last].duplicate();
                assert(self.view() =~= old(self).view().push(stored@));
                Some(stored)
            },
            None => None,
        }
    }

    /// All events, in the order in which they were appended.
    pub fn list_events(&self) -> (list: Vec<Event>)
        ensures
            event_views(list@) == self.view(),
    {
        let mut list: Vec<Event> = Vec::new();
        let mut i: usize = 0;
        while i < self.events.len()
            invariant
                i <= self.events@.len(),
                event_views(list@) == self.view().subrange(0, i as int),
            decreases self.events@.len() - i,
        {
            let ghost before = event_views(list@);
            list.push(self.events[i].duplicate());
            assert(event_views(list@) =~= before.push(self.events@[i as int]@));
            assert(self.view()[i as int] == self.events@[i as int]@);
            assert(self.view().subrange(0, i as int + 1) =~= self.view().subrange(
                0,
                i as int,
            ).push(self.view()[i as int]));
            i = i + 1;
        }
        assert(self.view().subrange(0, self.events@.len() as int) =~= self.view());
        list
    }

    /// The events whose kind is the variant named `tag_name`, in the
    /// order in which they were appended.  Names are compared exactly.
    pub fn find_events_by_kind(&self, tag_name: &str) -> (list: Vec<Event>)
        ensures
            event_views(list@) == of_kind(self.view(), tag_name@),
    {
        let mut list: Vec<Event> = Vec::new();
        let mut i: usize = 0;
        assert(self.view().subrange(0, 0) =~= Seq::<EventView>::empty());
        while i < self.events.len()
            invariant
                i <= self.events@.len(),
                event_views(list@) == of_kind(self.view().subrange(0, i as int), tag_name@),
            decreases self.events@.len() - i,
        {
            let ghost next = self.view().subrange(0, i as int + 1);
            assert(next.drop_last() =~= self.view().subrange(0, i as int));
            assert(next.last() == self.events@[i as int]@);
            if same_text(self.events[i].kind.name().as_str(), tag_name) {
                let ghost before = event_views(list@);
                list.push(self.events[i].duplicate());
                assert(event_views(list@) =~= before.push(self.events@[i as int]@));
            }
            i = i + 1;
        }
        assert(self.view().subrange(0, self.events@.len() as int) =~= self.view());
        list
    }

    /// Forgets every event.  Identifiers go on from where they were.
    pub fn clear_timeline(&mut self)
        ensures
            final(self).view() == Seq::<EventView>::empty(),
            final(self).next_id == old(self).next_id,
            final(self).wf(),
    {
        self.events = Vec::new();
        assert(self.view() =~= Seq::<EventView>::empty());
    }

    /// Along the log identifiers grow strictly: an event that was
    /// appended before another has the smaller identifier, and appending
    /// keeps what was there.
    pub proof fn lemma_monotone(self, i: int, j: int)
        requires
            self.wf(),
            0 <= i < j < self.view().len(),
        ensures
            self.view()[i].id < self.view()[j].id,
    {
        assert(self.view()[i] == self.events@[i]@);
        assert(self.view()[j] == self.events@[j]@);
    }
}

} // verus!
