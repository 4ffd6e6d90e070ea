//! The event broker: fans published events out to subscribers by
//! channel, keeps the most recent events for replay, and bounds what it
//! queues for each subscriber.

use vstd::prelude::*;
use crate::events::{event_views, Event, EventView};
use crate::text::{clone_strings, holds_text, texts};

verus! {

/// How many events a broker retains for replay unless told otherwise.
pub const DEFAULT_RETENTION: usize = 1000;

/// How many events a broker queues for one subscriber unless told
/// otherwise.
pub const DEFAULT_QUEUE_CAPACITY: usize = 256;

/// After how many milliseconds without an event a subscriber is sent a
/// heartbeat, unless told otherwise.
pub const DEFAULT_HEARTBEAT_MS: u64 = 30000;

/// One subscriber's state.
pub struct Subscriber {
    pub subscriber_id: u64,
    /// The channels the subscriber listens on.
    pub channels: Vec<String>,
    /// The events that wait to be delivered, oldest first.
    pub queue: Vec<Event>,
    /// The identifier of the event that was delivered last; 0 before the
    /// first delivery.
    pub last_delivered_id: u128,
    /// Whether an event had to be dropped because the queue was full.
    pub overflowed: bool,
}

/// A subscriber as plain data.
pub struct SubscriberView {
    pub subscriber_id: u64,
    pub channels: Seq<Seq<char>>,
    pub queue: Seq<EventView>,
    pub last_delivered_id: u128,
    pub overflowed: bool,
}

impl View for Subscriber {
    type V = SubscriberView;

    open spec fn view(&self) -> SubscriberView {
        SubscriberView {
            subscriber_id: self.subscriber_id,
            channels: texts(self.channels@),
            queue: event_views(self.queue@),
            last_delivered_id: self.last_delivered_id,
            overflowed: self.overflowed,
        }
    }
}

/// Whether two sets of channels have a channel in common.
pub open spec fn intersects(a: Seq<Seq<char>>, b: Seq<Seq<char>>) -> bool {
    exists|i: int| 0 <= i < a.len() && b.contains(#[trigger] a[i])
}

/// A subscriber after an event was published.  An event on none of the
/// subscriber's channels leaves it as it was.  Otherwise the event goes
/// to the end of the queue; where the queue is full its oldest event is
/// dropped to make room, and the subscriber is marked as overflowed.
pub open spec fn enqueue(sub: SubscriberView, event: EventView, capacity: nat) -> SubscriberView {
    if !intersects(event.channels, sub.channels) {
        sub
    } else if sub.queue.len() < capacity {
        SubscriberView { queue: sub.queue.push(event), ..sub }
    } else if sub.queue.len() > 0 {
        SubscriberView { queue: sub.queue.drop_first().push(event), overflowed: true, ..sub }
    } else {
        SubscriberView { overflowed: true, ..sub }
    }
}

/// A subscriber after a sequence of events was published, one after the
/// other.
pub open spec fn deliver_all(sub: SubscriberView, events: Seq<EventView>, capacity: nat) -> SubscriberView
    decreases events.len(),
{
    if events.len() == 0 {
        sub
    } else {
        enqueue(deliver_all(sub, events.drop_last(), capacity), events.last(), capacity)
    }
}

/// The events of a sequence that are on one of the given channels, in
/// their order.
pub open spec fn relevant(events: Seq<EventView>, channels: Seq<Seq<char>>) -> Seq<EventView>
    decreases events.len(),
{
    if events.len() == 0 {
        Seq::empty()
    } else if intersects(events.last().channels, channels) {
        relevant(events.drop_last(), channels).push(events.last())
    } else {
        relevant(events.drop_last(), channels)
    }
}

/// The events of a sequence whose identifier is greater than `last`, in
/// their order.
pub open spec fn newer(events: Seq<EventView>, last: u128) -> Seq<EventView>
    decreases events.len(),
{
    if events.len() == 0 {
        Seq::empty()
    } else if events.last().id > last {
        newer(events.drop_last(), last).push(events.last())
    } else {
        newer(events.drop_last(), last)
    }
}

/// Whether a sequence holds the event with the given identifier.
pub open spec fn retains(events: Seq<EventView>, id: u128) -> bool {
    exists|i: int| 0 <= i < events.len() && (#[trigger] events[i]).id == id
}

/// The retained events after one more was published: the new event goes
/// to the end, and the oldest is dropped where the ring is full.
pub open spec fn retain(retained: Seq<EventView>, event: EventView, retention: nat) -> Seq<EventView> {
    if retention == 0 {
        Seq::empty()
    } else if retained.len() < retention {
        retained.push(event)
    } else {
        retained.drop_first().push(event)
    }
}

/// Delivery is exact as long as nothing overflows: a subscriber that was
/// not overflowed and is not overflowed after a sequence of events was
/// published has, at the end of its queue and in the order of
/// publication, exactly the events that were on one of its channels.
pub proof fn lemma_delivery(sub: SubscriberView, events: Seq<EventView>, capacity: nat)
    requires
        !deliver_all(sub, events, capacity).overflowed,
    ensures
        deliver_all(sub, events, capacity).queue == sub.queue + relevant(events, sub.channels),
        deliver_all(sub, events, capacity).channels == sub.channels,
        !sub.overflowed,
    decreases events.len(),
{
    lemma_delivery_frame(sub, events, capacity);
    if events.len() == 0 {
        assert(sub.queue + relevant(events, sub.channels) =~= sub.queue);
    } else {
        let before = deliver_all(sub, events.drop_last(), capacity);
        lemma_delivery_frame(sub, events.drop_last(), capacity);
        lemma_delivery(sub, events.drop_last(), capacity);
        let rest = relevant(events.drop_last(), sub.channels);
        if intersects(events.last().channels, sub.channels) {
            assert((sub.queue + rest).push(events.last()) =~= sub.queue + rest.push(
                events.last(),
            ));
        }
    }
}

/// Publishing changes neither who a subscriber is nor what it listens
/// on, and an overflow is never forgotten.
pub proof fn lemma_delivery_frame(sub: SubscriberView, events: Seq<EventView>, capacity: nat)
    ensures
        deliver_all(sub, events, capacity).channels == sub.channels,
        deliver_all(sub, events, capacity).subscriber_id == sub.subscriber_id,
        deliver_all(sub, events, capacity).last_delivered_id == sub.last_delivered_id,
        sub.overflowed ==> deliver_all(sub, events, capacity).overflowed,
    decreases events.len(),
{
    if events.len() > 0 {
        lemma_delivery_frame(sub, events.drop_last(), capacity);
    }
}

/// Whether two lists of channels have a channel in common.
pub fn channels_intersect(a: &Vec<String>, b: &Vec<String>) -> (r: bool)
    ensures
        r == intersects(texts(a@), texts(b@)),
{
    let mut i: usize = 0;
    while i < a.len()
        invariant
            i <= a.len(),
            forall|j: int| 0 <= j < i ==> !texts(b@).contains(#[trigger] texts(a@)[j]),
        decreases a.len() - i,
    {
        if holds_text(b, a[i].as_str()) {
            assert(texts(a@)[i as int] == a@[i as int]@);
            return true;
        }
        assert(texts(a@)[i as int] == a@[i as int]@);
        i = i + 1;
    }
    false
}

/// Hands one published event to one subscriber.
pub fn deliver_to(sub: &mut Subscriber, event: &Event, capacity: usize)
    ensures
        final(sub)@ == enqueue(old(sub)@, event@, capacity as nat),
{
    if !channels_intersect(&event.channels, &sub.channels) {
        return ;
    }
    let ghost before = event_views(sub.queue@);
    if sub.queue.len() < capacity {
        sub.queue.push(event.duplicate());
        assert(event_views(sub.queue@) =~= before.push(event@));
    } else if sub.queue.len() > 0 {
        sub.queue.remove(0);
        sub.queue.push(event.duplicate());
        sub.overflowed = true;
        assert(event_views(sub.queue@) =~= before.drop_first().push(event@));
    } else {
        sub.overflowed = true;
    }
}

/// What a broker operation can fail with.
#[derive(Debug)]
pub enum BrokerError {
    /// The broker has given out every identifier it has.
    Exhausted,
}

/// What a subscriber gets when it asks for its next event.
#[derive(Debug)]
pub enum Polled {
    /// The oldest event that was waiting.
    Event(Event),
    /// The marker that events were dropped: the subscription has ended,
    /// and the client is to connect again with the last identifier it
    /// saw.
    Overflow,
    /// Nothing is waiting.
    Idle,
    /// The broker knows no such subscriber.
    Unknown,
}

/// The broker.
pub struct EventBroker {
    /// The identifier that the next published event will get.
    pub next_id: u128,
    /// The most recent events, oldest first.
    pub retained: Vec<Event>,
    /// How many events are retained at most.
    pub retention: usize,
    /// How many events are queued for one subscriber at most.
    pub queue_capacity: usize,
    /// The connected subscribers, in the order in which they subscribed.
    pub subscribers: Vec<Subscriber>,
    /// The identifier that the next subscriber will get.
    pub next_subscriber: u64,
}

/// The subscribers of a sequence as plain data.
pub open spec fn subscriber_views(subscribers: Seq<Subscriber>) -> Seq<SubscriberView> {
    subscribers.map_values(|s: Subscriber| s@)
}

/// A subscriber that has just connected.
pub open spec fn fresh_subscriber(
    subscriber_id: u64,
    channels: Seq<Seq<char>>,
    last_event_id: Option<u128>,
) -> SubscriberView {
    SubscriberView {
        subscriber_id,
        channels,
        queue: Seq::empty(),
        last_delivered_id: match last_event_id {
            Some(last) => last,
            None => 0,
        },
        overflowed: false,
    }
}

/// A subscriber as it joins: where it names the last event it saw and
/// the broker still retains that event, every retained event after it is
/// replayed; otherwise delivery starts with what is published next.
pub open spec fn joined_subscriber(
    subscriber_id: u64,
    channels: Seq<Seq<char>>,
    last_event_id: Option<u128>,
    retained: Seq<EventView>,
    capacity: nat,
) -> SubscriberView {
    let fresh = fresh_subscriber(subscriber_id, channels, last_event_id);
    match last_event_id {
        Some(last) => if retains(retained, last) {
            deliver_all(fresh, newer(retained, last), capacity)
        } else {
            fresh
        },
        None => fresh,
    }
}

/// A broker as plain data.
pub struct BrokerView {
    pub next_id: u128,
    pub retained: Seq<EventView>,
    pub retention: nat,
    pub queue_capacity: nat,
    pub subscribers: Seq<SubscriberView>,
    pub next_subscriber: u64,
}

/// A broker after an event was published: the event is stamped with the
/// next identifier, retained, and handed to every subscriber.  Where the
/// identifiers are used up, nothing happens.
pub open spec fn spec_publish(broker: BrokerView, event: EventView) -> BrokerView {
    if broker.next_id == u128::MAX {
        broker
    } else {
        let stamped = EventView { id: broker.next_id, ..event };
        BrokerView {
            next_id: (broker.next_id + 1) as u128,
            retained: retain(broker.retained, stamped, broker.retention),
            subscribers: broker.subscribers.map_values(
                |s: SubscriberView| enqueue(s, stamped, broker.queue_capacity),
            ),
            ..broker
        }
    }
}

/// A broker after a sequence of events was published, one after the
/// other.
pub open spec fn spec_publish_all(broker: BrokerView, events: Seq<EventView>) -> BrokerView
    decreases events.len(),
{
    if events.len() == 0 {
        broker
    } else {
        spec_publish(spec_publish_all(broker, events.drop_last()), events.last())
    }
}

/// A sequence of events as the broker stamps them: each with the
/// identifier that follows that of the event before it, from `first`.
pub open spec fn stamped_from(events: Seq<EventView>, first: u128) -> Seq<EventView> {
    Seq::new(events.len(), |i: int| EventView { id: (first + i) as u128, ..events[i] })
}

/// The events that a broker publishes of a sequence handed to it, as it
/// stamps them: all of them, or, where the identifiers run out, those
/// that an identifier is left for.
pub open spec fn published(broker: BrokerView, events: Seq<EventView>) -> Seq<EventView> {
    let room = u128::MAX - broker.next_id;
    if events.len() <= room {
        stamped_from(events, broker.next_id)
    } else {
        stamped_from(events.take(room), broker.next_id)
    }
}

/// Publishing a sequence of events, one after the other, hands each
/// subscriber exactly the events that were published, stamped with
/// consecutive identifiers, in the order of publication.  The
/// subscribers stay who and where they are, and so do the broker's
/// limits.
pub proof fn lemma_publish_all_delivers(broker: BrokerView, events: Seq<EventView>)
    ensures
        spec_publish_all(broker, events).next_id == broker.next_id + published(
            broker,
            events,
        ).len(),
        spec_publish_all(broker, events).retention == broker.retention,
        spec_publish_all(broker, events).queue_capacity == broker.queue_capacity,
        spec_publish_all(broker, events).next_subscriber == broker.next_subscriber,
        spec_publish_all(broker, events).subscribers.len() == broker.subscribers.len(),
        forall|k: int|
            0 <= k < broker.subscribers.len() ==> (#[trigger] spec_publish_all(
                broker,
                events,
            ).subscribers[k]) == deliver_all(
                broker.subscribers[k],
                published(broker, events),
                broker.queue_capacity,
            ),
    decreases events.len(),
{
    let room = u128::MAX - broker.next_id;
    if events.len() > 0 {
        let earlier = events.drop_last();
        lemma_publish_all_delivers(broker, earlier);
        let middle = spec_publish_all(broker, earlier);
        let all = published(broker, events);
        if middle.next_id == u128::MAX {
            assert(events.len() > room);
            if earlier.len() > room {
                assert(events.take(room) =~= earlier.take(room));
            } else {
                assert(events.take(room) =~= earlier);
            }
            assert(all == published(broker, earlier));
        } else {
            assert(events.len() <= room);
            assert(all.drop_last() =~= published(broker, earlier));
            assert(all.last() == EventView { id: middle.next_id, ..events.last() });
            assert forall|k: int| 0 <= k < broker.subscribers.len() implies (
            #[trigger] spec_publish_all(broker, events).subscribers[k]) == deliver_all(
                broker.subscribers[k],
                all,
                broker.queue_capacity,
            ) by {
                assert(middle.subscribers[k] == deliver_all(
                    broker.subscribers[k],
                    published(broker, earlier),
                    broker.queue_capacity,
                ));
            }
        }
    } else {
        assert(published(broker, events) =~= Seq::<EventView>::empty());
    }
}

/// One step in the life of a subscriber: an event is published, or the
/// subscriber asks for its next event.
pub enum Step {
    Publish(EventView),
    Poll,
}

/// The events of the publish steps of a sequence, in their order.
pub open spec fn publications(steps: Seq<Step>) -> Seq<EventView>
    decreases steps.len(),
{
    if steps.len() == 0 {
        Seq::empty()
    } else {
        match steps.last() {
            Step::Publish(event) => publications(steps.drop_last()).push(event),
            Step::Poll => publications(steps.drop_last()),
        }
    }
}

/// A subscriber and what it has received.
pub struct Reception {
    pub subscriber: SubscriberView,
    pub received: Seq<EventView>,
}

/// A subscriber after a sequence of steps, and what it has received by
/// then.  A published event is queued for it; a poll hands it the oldest
/// event of its queue, where one waits and the queue did not overflow.
pub open spec fn reception(sub: SubscriberView, steps: Seq<Step>, capacity: nat) -> Reception
    decreases steps.len(),
{
    if steps.len() == 0 {
        Reception { subscriber: sub, received: Seq::empty() }
    } else {
        let before = reception(sub, steps.drop_last(), capacity);
        match steps.last() {
            Step::Publish(event) => Reception {
                subscriber: enqueue(before.subscriber, event, capacity),
                received: before.received,
            },
            Step::Poll => if before.subscriber.overflowed || before.subscriber.queue.len() == 0 {
                before
            } else {
                Reception {
                    subscriber: SubscriberView {
                        queue: before.subscriber.queue.drop_first(),
                        last_delivered_id: before.subscriber.queue[0].id,
                        ..before.subscriber
                    },
                    received: before.received.push(before.subscriber.queue[0]),
                }
            },
        }
    }
}

/// The delivery law.  However publishing and polling alternate, a
/// subscriber whose queue never overflows receives exactly the events
/// that waited for it when the steps began and then the published events
/// that are on one of its channels: each once, none missing, in the order
/// of publication.  What it has not yet received waits in its queue.  An
/// event on none of its channels never reaches it.
pub proof fn lemma_reception(sub: SubscriberView, steps: Seq<Step>, capacity: nat)
    requires
        !reception(sub, steps, capacity).subscriber.overflowed,
    ensures
        reception(sub, steps, capacity).received + reception(sub, steps, capacity).subscriber.queue
            == sub.queue + relevant(publications(steps), sub.channels),
        reception(sub, steps, capacity).subscriber.channels == sub.channels,
        reception(sub, steps, capacity).subscriber.subscriber_id == sub.subscriber_id,
        !sub.overflowed,
    decreases steps.len(),
{
    if steps.len() == 0 {
        assert(Seq::<EventView>::empty() + sub.queue =~= sub.queue + relevant(
            publications(steps),
            sub.channels,
        ));
    } else {
        let before = reception(sub, steps.drop_last(), capacity);
        let after = reception(sub, steps, capacity);
        let earlier = relevant(publications(steps.drop_last()), sub.channels);
        lemma_reception(sub, steps.drop_last(), capacity);
        match steps.last() {
            Step::Publish(event) => {
                let sent = publications(steps);
                assert(sent.drop_last() =~= publications(steps.drop_last()));
                assert(sent.last() == event);
                if intersects(event.channels, sub.channels) {
                    assert(relevant(sent, sub.channels) == earlier.push(event));
                    assert(after.received + after.subscriber.queue =~= (before.received
                        + before.subscriber.queue).push(event));
                    assert((sub.queue + earlier).push(event) =~= sub.queue + earlier.push(event));
                } else {
                    assert(relevant(sent, sub.channels) == earlier);
                }
            },
            Step::Poll => {
                assert(after.received + after.subscriber.queue =~= before.received
                    + before.subscriber.queue);
            },
        }
    }
}

/// The delivery law from the moment a subscriber joins: a subscriber
/// that joins and does not overflow receives, however publishing and
/// polling alternate, the replayed events of its channels and then the
/// published events of its channels, each once and in order.  The
/// replayed events are the retained events after the one it names, where
/// the broker still retains that one, and none otherwise.
pub proof fn lemma_delivery_from_join(
    subscriber_id: u64,
    channels: Seq<Seq<char>>,
    last_event_id: Option<u128>,
    retained: Seq<EventView>,
    steps: Seq<Step>,
    capacity: nat,
)
    requires
        !reception(
            joined_subscriber(subscriber_id, channels, last_event_id, retained, capacity),
            steps,
            capacity,
        ).subscriber.overflowed,
    ensures
        ({
            let end = reception(
                joined_subscriber(subscriber_id, channels, last_event_id, retained, capacity),
                steps,
                capacity,
            );
            end.received + end.subscriber.queue == replayed(retained, last_event_id, channels)
                + relevant(publications(steps), channels)
        }),
{
    let joined = joined_subscriber(subscriber_id, channels, last_event_id, retained, capacity);
    lemma_reception(joined, steps, capacity);
    lemma_replay(subscriber_id, channels, last_event_id, retained, capacity);
}

/// The events that are replayed to a subscriber as it joins: the
/// retained events of its channels after the event it names, where the
/// broker still retains that event; none otherwise.
pub open spec fn replayed(
    retained: Seq<EventView>,
    last_event_id: Option<u128>,
    channels: Seq<Seq<char>>,
) -> Seq<EventView> {
    match last_event_id {
        Some(last) => if retains(retained, last) {
            relevant(newer(retained, last), channels)
        } else {
            Seq::empty()
        },
        None => Seq::empty(),
    }
}

/// Replay is exact as long as nothing overflows: a subscriber that joins
/// after an event that the broker retains, and is not overflowed by the
/// replay, starts with exactly the retained events after that event that
/// are on one of its channels, in the order of publication.  A subscriber
/// that names no event, or one that is not retained, starts with nothing.
pub proof fn lemma_replay(
    subscriber_id: u64,
    channels: Seq<Seq<char>>,
    last_event_id: Option<u128>,
    retained: Seq<EventView>,
    capacity: nat,
)
    requires
        !joined_subscriber(subscriber_id, channels, last_event_id, retained, capacity).overflowed,
    ensures
        joined_subscriber(subscriber_id, channels, last_event_id, retained, capacity).queue
            == replayed(retained, last_event_id, channels),
        joined_subscriber(subscriber_id, channels, last_event_id, retained, capacity).channels
            == channels,
{
    let fresh = fresh_subscriber(subscriber_id, channels, last_event_id);
    match last_event_id {
        Some(last) => {
            if retains(retained, last) {
                lemma_delivery(fresh, newer(retained, last), capacity);
                assert(fresh.queue + relevant(newer(retained, last), channels) =~= relevant(
                    newer(retained, last),
                    channels,
                ));
            }
        },
        None => {},
    }
}

/// Whether no event was published for as long as the heartbeat interval.
pub fn heartbeat_due(idle_ms: u64, interval_ms: u64) -> (due: bool)
    ensures
        due == (idle_ms >= interval_ms),
{
    idle_ms >= interval_ms
}

impl EventBroker {
    /// The retained events as plain data, oldest first.
    pub open spec fn retained_view(self) -> Seq<EventView> {
        event_views(self.retained@)
    }

    /// The subscribers as plain data.
    pub open spec fn subscribers_view(self) -> Seq<SubscriberView> {
        subscriber_views(self.subscribers@)
    }

    /// The broker as plain data.
    pub open spec fn view(self) -> BrokerView {
        BrokerView {
            next_id: self.next_id,
            retained: self.retained_view(),
            retention: self.retention as nat,
            queue_capacity: self.queue_capacity as nat,
            subscribers: self.subscribers_view(),
            next_subscriber: self.next_subscriber,
        }
    }

    /// Identifiers of retained events grow strictly and lie below the
    /// next identifier; no more events are retained than the retention
    /// allows; subscribers have different identifiers, all below the next
    /// one.
    pub open spec fn wf(self) -> bool {
        &&& self.retained@.len() <= self.retention
        &&& forall|i: int, j: int|
            0 <= i < j < self.retained@.len() ==> (#[trigger] self.retained@[i]).id < (
            #[trigger] self.retained@[j]).id
        &&& forall|i: int|
            0 <= i < self.retained@.len() ==> (#[trigger] self.retained@[i]).id < self.next_id
        &&& forall|i: int|
            0 <= i < self.subscribers@.len() ==> (#[trigger] self.subscribers@[i]).subscriber_id
                < self.next_subscriber
        &&& forall|i: int, j: int|
            0 <= i < j < self.subscribers@.len() ==> (#[trigger] self.subscribers@[i]).subscriber_id
                != (#[trigger] self.subscribers@[j]).subscriber_id
    }

    /// Whether a subscriber with the given identifier is connected.
    pub open spec fn connected(self, subscriber_id: u64) -> bool {
        exists|i: int|
            0 <= i < self.subscribers@.len() && (#[trigger] self.subscribers@[i]).subscriber_id
                == subscriber_id
    }

    /// Where the subscriber with the given identifier stands.
    pub open spec fn place(self, subscriber_id: u64) -> int {
        choose|i: int|
            0 <= i < self.subscribers@.len() && (#[trigger] self.subscribers@[i]).subscriber_id
                == subscriber_id
    }

    /// A broker without events and subscribers.  Identifiers start at 1.
    pub fn new(retention: usize, queue_capacity: usize) -> (broker: EventBroker)
        ensures
            broker.wf(),
            broker.retention == retention,
            broker.queue_capacity == queue_capacity,
            broker.next_id == 1,
            broker.next_subscriber == 1,
            broker.retained@.len() == 0,
            broker.subscribers@.len() == 0,
    {
        EventBroker {
            next_id: 1,
            retained: Vec::new(),
            retention,
            queue_capacity,
            subscribers: Vec::new(),
            next_subscriber: 1,
        }
    }

    fn find(&self, subscriber_id: u64) -> (r: Option<usize>)
        requires
            self.wf(),
        ensures
            match r {
                Some(i) => i < self.subscribers@.len() && self.subscribers@[i as int].subscriber_id
                    == subscriber_id && self.connected(subscriber_id) && self.place(
                    subscriber_id,
                ) == i,
                None => !self.connected(subscriber_id),
            },
    {
        let mut i: usize = 0;
        while i < self.subscribers.len()
            invariant
                self.wf(),
                i <= self.subscribers@.len(),
                forall|j: int|
                    0 <= j < i ==> (#[trigger] self.subscribers@[j]).subscriber_id != subscriber_id,
            decreases self.subscribers@.len() - i,
        {
            if self.subscribers[i].subscriber_id == subscriber_id {
                proof {
                    let p = self.place(subscriber_id);
                    if p < i {
                        assert(self.subscribers@[p].subscriber_id != self.subscribers@[i as int].subscriber_id);
                    } else if i < p {
                        assert(self.subscribers@[i as int].subscriber_id != self.subscribers@[p].subscriber_id);
                    }
                }
                return Some(i);
            }
            i = i + 1;
        }
        None
    }

    /// Publishes an event: stamps it with the next identifier, retains
    /// it, and queues it for every subscriber that listens on one of its
    /// channels.  Subscribers on other channels see nothing of it.  A
    /// full queue never holds the publisher up: its oldest event makes
    /// room.  Returns the identifier.
    pub fn publish(&mut self, event: Event) -> (r: Result<u128, BrokerError>)
        requires
            old(self).wf(),
        ensures
            final(self).wf(),
            final(self).retention == old(self).retention,
            final(self).queue_capacity == old(self).queue_capacity,
            final(self).next_subscriber == old(self).next_subscriber,
            final(self).view() == spec_publish(old(self).view(), event@),
            match r {
                Ok(id) => {
                    &&& id == old(self).next_id
                    &&& final(self).next_id == id + 1
                    &&& final(self).retained_view() == retain(
                        old(self).retained_view(),
                        EventView { id, ..event@ },
                        old(self).retention as nat,
                    )
                    &&& final(self).subscribers@.len() == old(self).subscribers@.len()
                    &&& forall|i: int|
                        0 <= i < old(self).subscribers@.len()
                            ==> (#[trigger] final(self).subscribers@[i])@ == enqueue(
                            old(self).subscribers@[i]@,
                            EventView { id, ..event@ },
                            old(self).queue_capacity as nat,
                        )
                },
                Err(_) => old(self).next_id == u128::MAX && *final(self) == *old(self),
            },
    {
        if self.next_id == u128::MAX {
            return Err(BrokerError::Exhausted);
        }
        let id = self.next_id;
        let ghost unstamped = event@;
        let stamped = event.stamped(id);
        let capacity = self.queue_capacity;
        let ghost before = self.subscribers@;
        let mut i: usize = 0;
        while i < self.subscribers.len()
            invariant
                i <= self.subscribers@.len(),
                self.subscribers@.len() == before.len(),
                self.next_id == old(self).next_id,
                self.retained == old(self).retained,
                self.retention == old(self).retention,
                self.queue_capacity == old(self).queue_capacity,
                self.next_subscriber == old(self).next_subscriber,
                capacity == self.queue_capacity,
                forall|j: int|
                    0 <= j < i ==> (#[trigger] self.subscribers@[j])@ == enqueue(
                        before[j]@,
                        stamped@,
                        capacity as nat,
                    ),
                forall|j: int| i <= j < before.len() ==> #[trigger] self.subscribers@[j] == before[j],
            decreases self.subscribers@.len() - i,
        {
            deliver_to(&mut self.subscribers[i], &stamped, capacity);
            i = i + 1;
        }
        let ghost kept = self.retained_view();
        if self.retention > 0 {
            if self.retained.len() >= self.retention {
                self.retained.remove(0);
            }
            let copy = stamped.duplicate();
            self.retained.push(copy);
        }
        self.next_id = id + 1;
        proof {
            let old_retained = old(self).retained@;
            assert(self.retained_view() =~= retain(kept, stamped@, self.retention as nat));
            assert forall|a: int| 0 <= a < self.retained@.len() implies (
            #[trigger] self.retained@[a]).id < self.next_id by {
                let shift = if old_retained.len() >= self.retention {
                    1int
                } else {
                    0int
                };
                if a < self.retained@.len() - 1 {
                    assert(self.retained@[a] == old_retained[a + shift]);
                } else {
                    assert(self.retained@[a]@ == stamped@);
                }
            }
            assert forall|a: int, b: int| 0 <= a < b < self.retained@.len() implies (
            #[trigger] self.retained@[a]).id < (#[trigger] self.retained@[b]).id by {
                let shift = if old_retained.len() >= self.retention {
                    1int
                } else {
                    0int
                };
                assert(self.retained@[a] == old_retained[a + shift]);
                if b < self.retained@.len() - 1 {
                    assert(self.retained@[b] == old_retained[b + shift]);
                } else {
                    assert(self.retained@[b]@ == stamped@);
                }
            }
            assert forall|a: int| 0 <= a < self.subscribers@.len() implies (
            #[trigger] self.subscribers@[a]).subscriber_id < self.next_subscriber by {
                assert(self.subscribers@[a]@.subscriber_id == before[a]@.subscriber_id);
            }
            assert forall|a: int, b: int| 0 <= a < b < self.subscribers@.len() implies (
            #[trigger] self.subscribers@[a]).subscriber_id != (
            #[trigger] self.subscribers@[b]).subscriber_id by {
                assert(self.subscribers@[a]@.subscriber_id == before[a]@.subscriber_id);
                assert(self.subscribers@[b]@.subscriber_id == before[b]@.subscriber_id);
            }
            assert(self.subscribers_view() =~= old(self).subscribers_view().map_values(
                |s: SubscriberView| enqueue(s, stamped@, old(self).queue_capacity as nat),
            ));
        }
        Ok(id)
    }
}

impl EventBroker {
    /// Whether the broker retains the event with the given identifier.
    pub fn is_retained(&self, id: u128) -> (r: bool)
        ensures
            r == retains(self.retained_view(), id),
    {
        let mut i: usize = 0;
        while i < self.retained.len()
            invariant
                i <= self.retained@.len(),
                forall|j: int| 0 <= j < i ==> (#[trigger] self.retained_view()[j]).id != id,
            decreases self.retained@.len() - i,
        {
            if self.retained[i].id == id {
                assert(self.retained_view()[i as int].id == id);
                return true;
            }
            assert(self.retained_view()[i as int].id != id);
            i = i + 1;
        }
        false
    }

    /// Connects a subscriber to the given channels and returns its
    /// identifier.
    ///
    /// Where `last_event_id` names an event that the broker still
    /// retains, every retained event after it that is on one of the
    /// channels is queued for the subscriber, in order, before anything
    /// that is published later.  Where it names an event that is no
    /// longer retained, or none, the subscriber starts with an empty
    /// queue; that is no error.
    pub fn subscribe(&mut self, channels: Vec<String>, last_event_id: Option<u128>) -> (r: Result<
        u64,
        BrokerError,
    >)
        requires
            old(self).wf(),
        ensures
            final(self).wf(),
            final(self).retained == old(self).retained,
            final(self).retention == old(self).retention,
            final(self).queue_capacity == old(self).queue_capacity,
            final(self).next_id == old(self).next_id,
            match r {
                Ok(subscriber_id) => {
                    &&& subscriber_id == old(self).next_subscriber
                    &&& final(self).next_subscriber == subscriber_id + 1
                    &&& final(self).subscribers@.len() == old(self).subscribers@.len() + 1
                    &&& forall|i: int|
                        0 <= i < old(self).subscribers@.len() ==> #[trigger] final(self).subscribers@[i]
                            == old(self).subscribers@[i]
                    &&& final(self).subscribers@.last()@ == joined_subscriber(
                        subscriber_id,
                        texts(channels@),
                        last_event_id,
                        old(self).retained_view(),
                        old(self).queue_capacity as nat,
                    )
                },
                Err(_) => old(self).next_subscriber == u64::MAX && *final(self) == *old(self),
            },
    {
        if self.next_subscriber == u64::MAX {
            return Err(BrokerError::Exhausted);
        }
        let subscriber_id = self.next_subscriber;
        let mut sub = Subscriber {
            subscriber_id,
            channels,
            queue: Vec::new(),
            last_delivered_id: match last_event_id {
                Some(last) => last,
                None => 0,
            },
            overflowed: false,
        };
        let ghost fresh = fresh_subscriber(subscriber_id, texts(channels@), last_event_id);
        assert(sub@ =~= fresh) by {
            assert(event_views(sub.queue@) =~= Seq::<EventView>::empty());
        }
        match last_event_id {
            Some(last) => {
                if self.is_retained(last) {
                    let capacity = self.queue_capacity;
                    let mut i: usize = 0;
                    assert(self.retained_view().subrange(0, 0) =~= Seq::<EventView>::empty());
                    while i < self.retained.len()
                        invariant
                            i <= self.retained@.len(),
                            *self == *old(self),
                            capacity == self.queue_capacity,
                            sub@ == deliver_all(
                                fresh,
                                newer(self.retained_view().subrange(0, i as int), last),
                                capacity as nat,
                            ),
                        decreases self.retained@.len() - i,
                    {
                        let ghost next = self.retained_view().subrange(0, i as int + 1);
                        assert(next.drop_last() =~= self.retained_view().subrange(0, i as int));
                        assert(next.last() == self.retained@[i as int]@);
                        if self.retained[i].id > last {
                            let ghost chosen = newer(next, last);
                            assert(chosen.drop_last() =~= newer(next.drop_last(), last));
                            deliver_to(&mut sub, &self.retained[i], capacity);
                        }
                        i = i + 1;
                    }
                    assert(self.retained_view().subrange(0, self.retained@.len() as int)
                        =~= self.retained_view());
                }
            },
            None => {},
        }
        proof {
            lemma_delivery_frame(
                fresh,
                newer(self.retained_view(), match last_event_id {
                    Some(last) => last,
                    None => 0,
                }),
                self.queue_capacity as nat,
            );
        }
        let ghost before = self.subscribers@;
        self.subscribers.push(sub);
        self.next_subscriber = subscriber_id + 1;
        proof {
            assert forall|a: int| 0 <= a < self.subscribers@.len() implies (
            #[trigger] self.subscribers@[a]).subscriber_id < self.next_subscriber by {
                if a < before.len() {
                    assert(self.subscribers@[a] == before[a]);
                }
            }
            assert forall|a: int, b: int| 0 <= a < b < self.subscribers@.len() implies (
            #[trigger] self.subscribers@[a]).subscriber_id != (
            #[trigger] self.subscribers@[b]).subscriber_id by {
                assert(self.subscribers@[a] == before[a]);
                if b < before.len() {
                    assert(self.subscribers@[b] == before[b]);
                }
            }
        }
        Ok(subscriber_id)
    }

    /// Disconnects a subscriber.  Says whether it was connected.
    pub fn unsubscribe(&mut self, subscriber_id: u64) -> (removed: bool)
        requires
            old(self).wf(),
        ensures
            final(self).wf(),
            removed == old(self).connected(subscriber_id),
            !final(self).connected(subscriber_id),
            removed ==> final(self).subscribers@ == old(self).subscribers@.remove(
                old(self).place(subscriber_id),
            ),
            !removed ==> *final(self) == *old(self),
            final(self).retained == old(self).retained,
            final(self).next_id == old(self).next_id,
            final(self).retention == old(self).retention,
            final(self).queue_capacity == old(self).queue_capacity,
    {
        match self.find(subscriber_id) {
            Some(i) => {
                let ghost before = self.subscribers@;
                self.subscribers.remove(i);
                proof {
                    self.lemma_after_removal(before, i as int, subscriber_id);
                }
                true
            },
            None => false,
        }
    }

    proof fn lemma_after_removal(self, before: Seq<Subscriber>, i: int, subscriber_id: u64)
        requires
            0 <= i < before.len(),
            self.subscribers@ == before.remove(i),
            before[i].subscriber_id == subscriber_id,
            forall|a: int| 0 <= a < before.len() ==> (#[trigger] before[a]).subscriber_id < self.next_subscriber,
            forall|a: int, b: int|
                0 <= a < b < before.len() ==> (#[trigger] before[a]).subscriber_id != (
                #[trigger] before[b]).subscriber_id,
        ensures
            !self.connected(subscriber_id),
            forall|a: int|
                0 <= a < self.subscribers@.len() ==> (#[trigger] self.subscribers@[a]).subscriber_id
                    < self.next_subscriber,
            forall|a: int, b: int|
                0 <= a < b < self.subscribers@.len() ==> (#[trigger] self.subscribers@[a]).subscriber_id
                    != (#[trigger] self.subscribers@[b]).subscriber_id,
    {
        assert forall|a: int| 0 <= a < self.subscribers@.len() implies (
        #[trigger] self.subscribers@[a]) == before[if a < i {
            a
        } else {
            a + 1
        }] by {}
        assert forall|a: int| 0 <= a < self.subscribers@.len() implies (
        #[trigger] self.subscribers@[a]).subscriber_id != subscriber_id by {
            let a0 = if a < i {
                a
            } else {
                a + 1
            };
            if a0 < i {
                assert(before[a0].subscriber_id != before[i].subscriber_id);
            } else {
                assert(before[i].subscriber_id != before[a0].subscriber_id);
            }
        }
        assert forall|a: int, b: int| 0 <= a < b < self.subscribers@.len() implies (
        #[trigger] self.subscribers@[a]).subscriber_id != (
        #[trigger] self.subscribers@[b]).subscriber_id by {
            let a0 = if a < i {
                a
            } else {
                a + 1
            };
            let b0 = if b < i {
                b
            } else {
                b + 1
            };
            assert(before[a0].subscriber_id != before[b0].subscriber_id);
        }
    }

    /// Hands a subscriber its next event.
    ///
    /// A subscriber whose queue overflowed gets the overflow marker, and
    /// is disconnected.  Otherwise it gets the oldest event of its queue,
    /// which leaves the queue and becomes the last delivered event; or it
    /// is told that nothing waits.  No other subscriber is touched.
    pub fn poll(&mut self, subscriber_id: u64) -> (r: Polled)
        requires
            old(self).wf(),
        ensures
            final(self).wf(),
            final(self).retained == old(self).retained,
            final(self).next_id == old(self).next_id,
            final(self).retention == old(self).retention,
            final(self).queue_capacity == old(self).queue_capacity,
            final(self).next_subscriber == old(self).next_subscriber,
            match r {
                Polled::Unknown => !old(self).connected(subscriber_id) && *final(self) == *old(self),
                Polled::Overflow => {
                    &&& old(self).connected(subscriber_id)
                    &&& old(self).subscribers@[old(self).place(subscriber_id)].overflowed
                    &&& final(self).subscribers@ == old(self).subscribers@.remove(
                        old(self).place(subscriber_id),
                    )
                    &&& !final(self).connected(subscriber_id)
                },
                Polled::Idle => {
                    &&& old(self).connected(subscriber_id)
                    &&& !old(self).subscribers@[old(self).place(subscriber_id)].overflowed
                    &&& old(self).subscribers@[old(self).place(subscriber_id)].queue@.len() == 0
                    &&& *final(self) == *old(self)
                },
                Polled::Event(event) => {
                    let place = old(self).place(subscriber_id);
                    let before = old(self).subscribers@[place]@;
                    &&& old(self).connected(subscriber_id)
                    &&& !before.overflowed
                    &&& before.queue.len() > 0
                    &&& event@ == before.queue[0]
                    &&& final(self).subscribers@.len() == old(self).subscribers@.len()
                    &&& final(self).subscribers@[place]@ == (SubscriberView {
                        queue: before.queue.drop_first(),
                        last_delivered_id: event.id,
                        ..before
                    })
                    &&& forall|i: int|
                        0 <= i < old(self).subscribers@.len() && i != place ==> #[trigger] final(self).subscribers@[i]
                            == old(self).subscribers@[i]
                },
            },
    {
        let i = match self.find(subscriber_id) {
            Some(i) => i,
            None => {
                return Polled::Unknown;
            },
        };
        if self.subscribers[i].overflowed {
            let ghost before = self.subscribers@;
            self.subscribers.remove(i);
            proof {
                self.lemma_after_removal(before, i as int, subscriber_id);
            }
            return Polled::Overflow;
        }
        if self.subscribers[i].queue.len() == 0 {
            return Polled::Idle;
        }
        let ghost before = self.subscribers@;
        let ghost waiting = event_views(self.subscribers@[i as int].queue@);
        let event = take_first(&mut self.subscribers[i]);
        proof {
            assert forall|a: int| 0 <= a < self.subscribers@.len() implies (
            #[trigger] self.subscribers@[a]).subscriber_id == before[a].subscriber_id by {}
        }
        Polled::Event(event)
    }
}

/// Takes the oldest event out of a subscriber's queue.
fn take_first(sub: &mut Subscriber) -> (event: Event)
    requires
        old(sub).queue@.len() > 0,
    ensures
        event@ == old(sub)@.queue[0],
        final(sub)@ == (SubscriberView {
            queue: old(sub)@.queue.drop_first(),
            last_delivered_id: event.id,
            ..old(sub)@
        }),
{
    let ghost before = event_views(sub.queue@);
    let event = sub.queue.remove(0);
    sub.last_delivered_id = event.id;
    assert(event_views(sub.queue@) =~= before.drop_first());
    assert(before[0] == event@);
    event
}

} // verus!
