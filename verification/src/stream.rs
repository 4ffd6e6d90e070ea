//! Event streams: which channels a request asks for, where a stream
//! resumes, and how events are framed as server-sent events.

use vstd::prelude::*;
use crate::broker::{
    heartbeat_due,
    joined_subscriber,
    BrokerError,
    EventBroker,
    Polled,
    SubscriberView,
};
use crate::decimal::{decimal_digits, parse_number, render_decimal_wide, spec_number};
use crate::events::{Event, EventView};
use crate::gateway::ApiError;
use crate::json::spec_object;
use crate::text::{chars_of, same_chars, string_of, texts};

verus! {

/// The greatest event identifier that a request can name.
pub const MAX_EVENT_ID: u128 = 0x0fff_ffff_ffff_ffff_ffff_ffff_ffff_ffff;

/// Where the run of characters other than `stop` that starts at `pos`
/// ends.
pub open spec fn until(s: Seq<char>, pos: int, stop: char) -> int
    decreases s.len() - pos,
{
    if 0 <= pos < s.len() && s[pos] != stop {
        until(s, pos + 1, stop)
    } else {
        pos
    }
}

/// The channel that one `name=value` pair of a query asks for: the value,
/// up to a further `=`, where the name is `channel` and a `=` follows it.
pub open spec fn channel_of(pair: Seq<char>) -> Option<Seq<char>> {
    let name_end = until(pair, 0, '=');
    if pair.subrange(0, name_end) == "channel"@ && name_end < pair.len() {
        Some(pair.subrange(name_end + 1, until(pair, name_end + 1, '=')))
    } else {
        None
    }
}

/// The channels that the pairs of a query ask for, from `pos` on, in
/// their order.  Pairs are separated by `&`.
pub open spec fn channels_from(query: Seq<char>, pos: int) -> Seq<Seq<char>>
    decreases query.len() - pos,
{
    let end = until(query, pos, '&');
    let rest = if 0 <= pos <= end < query.len() {
        channels_from(query, end + 1)
    } else {
        Seq::empty()
    };
    if 0 <= pos <= end <= query.len() {
        match channel_of(query.subrange(pos, end)) {
            Some(channel) => seq![channel] + rest,
            None => rest,
        }
    } else {
        rest
    }
}

/// The channels that a stream request subscribes to: those its query
/// asks for, or `default` where it asks for none.
pub open spec fn spec_stream_channels(query: Seq<char>) -> Seq<Seq<char>> {
    let asked = channels_from(query, 0);
    if asked.len() == 0 {
        seq!["default"@]
    } else {
        asked
    }
}

/// The event that a stream resumes after: the number that the
/// `Last-Event-ID` header holds, where there is one and it is a number.
pub open spec fn spec_last_event_id(header: Option<&str>) -> Option<u128> {
    match header {
        Some(text) => match spec_number(text@, MAX_EVENT_ID as nat) {
            Some(n) => Some(n as u128),
            None => None,
        },
        None => None,
    }
}

fn scan_until(v: &Vec<char>, pos: usize, stop: char) -> (end: usize)
    requires
        pos <= v.len(),
    ensures
        end == until(v@, pos as int, stop),
        pos <= end <= v.len(),
{
    let mut i: usize = pos;
    while i < v.len() && v[i] != stop
        invariant
            pos <= i <= v.len(),
            until(v@, pos as int, stop) == until(v@, i as int, stop),
        decreases v.len() - i,
    {
        i = i + 1;
    }
    i
}

fn copy_range(v: &Vec<char>, from: usize, to: usize) -> (r: Vec<char>)
    requires
        from <= to <= v.len(),
    ensures
        r@ == v@.subrange(from as int, to as int),
{
    let mut r: Vec<char> = Vec::new();
    let mut i: usize = from;
    while i < to
        invariant
            from <= i <= to <= v.len(),
            r@ == v@.subrange(from as int, i as int),
        decreases to - i,
    {
        r.push(v[i]);
        assert(r@ =~= v@.subrange(from as int, i as int + 1));
        i = i + 1;
    }
    r
}

fn channel_in(pair: &Vec<char>) -> (r: Option<String>)
    ensures
        match r {
            Some(channel) => channel_of(pair@) == Some(channel@),
            None => channel_of(pair@) is None,
        },
{
    let name_end = scan_until(pair, 0, '=');
    let name = copy_range(pair, 0, name_end);
    let wanted = chars_of("channel");
    if same_chars(&name, &wanted) && name_end < pair.len() {
        let value_end = scan_until(pair, name_end + 1, '=');
        Some(string_of(pair, name_end + 1, value_end))
    } else {
        None
    }
}

fn collect_channels(query: &Vec<char>, pos: usize) -> (list: Vec<String>)
    requires
        pos <= query.len(),
    ensures
        texts(list@) == channels_from(query@, pos as int),
    decreases query.len() - pos,
{
    let end = scan_until(query, pos, '&');
    let mut list: Vec<String> = if end < query.len() {
        collect_channels(query, end + 1)
    } else {
        Vec::new()
    };
    let pair = copy_range(query, pos, end);
    match channel_in(&pair) {
        Some(channel) => {
            let ghost rest = texts(list@);
            list.insert(0, channel);
            assert(texts(list@) =~= seq![channel@] + rest);
        },
        None => {},
    }
    list
}

/// The channels that a stream request subscribes to, from its raw query.
pub fn stream_channels(query: &str) -> (channels: Vec<String>)
    ensures
        texts(channels@) == spec_stream_channels(query@),
{
    let q = chars_of(query);
    let mut channels = collect_channels(&q, 0);
    if channels.len() == 0 {
        channels.push("default".to_owned());
        assert(texts(channels@) =~= seq!["default"@]);
    }
    channels
}

/// The event that a stream resumes after, from the `Last-Event-ID`
/// header.
pub fn last_event_id(header: Option<&str>) -> (id: Option<u128>)
    ensures
        id == spec_last_event_id(header),
{
    match header {
        Some(text) => parse_number(text, MAX_EVENT_ID),
        None => None,
    }
}

/// The frame of an event: its identifier, the name of its kind, and its
/// kind as a JSON object.
pub open spec fn spec_frame(event: EventView) -> Seq<char> {
    "id: "@ + decimal_digits(event.id as nat) + "\nevent: "@ + event.kind.name() + "\ndata: "@
        + spec_object(event.kind.members()) + "\n\n"@
}

/// The frame that keeps a quiet stream alive, and that marks a stream
/// that lost events.
pub open spec fn spec_heartbeat() -> Seq<char> {
    "event: heartbeat\ndata: {}\n\n"@
}

/// Frames an event for a stream.
pub fn sse_frame(event: &Event) -> (frame: String)
    ensures
        frame@ == spec_frame(event@),
{
    let mut frame = "id: ".to_owned();
    frame.append(render_decimal_wide(event.id).as_str());
    frame.append("\nevent: ");
    frame.append(event.kind.name().as_str());
    frame.append("\ndata: ");
    frame.append(event.kind.to_json().as_str());
    frame.append("\n\n");
    frame
}

/// The heartbeat frame.
pub fn heartbeat_frame() -> (frame: String)
    ensures
        frame@ == spec_heartbeat(),
{
    "event: heartbeat\ndata: {}\n\n".to_owned()
}

/// One header of an answer.
#[derive(Debug)]
pub struct Header {
    pub name: String,
    pub value: String,
}

/// The headers of a stream's answer.
pub fn stream_headers() -> (headers: Vec<Header>)
    ensures
        headers@.len() == 3,
        headers@[0].name@ == "Content-Type"@ && headers@[0].value@ == "text/event-stream"@,
        headers@[1].name@ == "Cache-Control"@ && headers@[1].value@ == "no-cache"@,
        headers@[2].name@ == "Connection"@ && headers@[2].value@ == "keep-alive"@,
{
    let mut headers: Vec<Header> = Vec::new();
    headers.push(
        Header { name: "Content-Type".to_owned(), value: "text/event-stream".to_owned() },
    );
    headers.push(Header { name: "Cache-Control".to_owned(), value: "no-cache".to_owned() });
    headers.push(Header { name: "Connection".to_owned(), value: "keep-alive".to_owned() });
    headers
}

/// Opens a stream: subscribes to the channels that the query asks for,
/// resuming after the event that the `Last-Event-ID` header names.
/// Returns the subscriber's identifier.
pub fn handle_stream(broker: &mut EventBroker, query: &str, last_event_header: Option<&str>) -> (r:
    Result<u64, ApiError>)
    requires
        old(broker).wf(),
    ensures
        final(broker).wf(),
        final(broker).retained == old(broker).retained,
        final(broker).retention == old(broker).retention,
        final(broker).queue_capacity == old(broker).queue_capacity,
        final(broker).next_id == old(broker).next_id,
        match r {
            Ok(subscriber_id) => {
                &&& subscriber_id == old(broker).next_subscriber
                &&& final(broker).next_subscriber == subscriber_id + 1
                &&& final(broker).subscribers@.len() == old(broker).subscribers@.len() + 1
                &&& forall|i: int|
                    0 <= i < old(broker).subscribers@.len() ==> #[trigger] final(broker).subscribers@[i]
                        == old(broker).subscribers@[i]
                &&& final(broker).subscribers@.last()@ == joined_subscriber(
                    subscriber_id,
                    spec_stream_channels(query@),
                    spec_last_event_id(last_event_header),
                    old(broker).retained_view(),
                    old(broker).queue_capacity as nat,
                )
            },
            Err(ApiError::InternalError(m)) => m@ == "Assinaturas esgotadas"@ && old(broker).next_subscriber == u64::MAX && *final(broker) == *old(broker),
            Err(_) => false,
        },
{
    let channels = stream_channels(query);
    let last = last_event_id(last_event_header);
    match broker.subscribe(channels, last) {
        Ok(subscriber_id) => Ok(subscriber_id),
        Err(_) => Err(ApiError::InternalError("Assinaturas esgotadas".to_owned())),
    }
}

/// What a stream does next.
#[derive(Debug)]
pub enum StreamStep {
    /// Send the frame of the next event.
    Frame(String),
    /// Nothing happened for the heartbeat interval: send a heartbeat.
    Heartbeat(String),
    /// Events were lost: send the marker and end the stream.
    End(String),
    /// Nothing to send yet.
    Wait,
    /// The subscriber is not connected.
    Gone,
}

/// Decides what a stream does next, given for how long nothing was sent
/// on it.
pub fn next_frame(broker: &mut EventBroker, subscriber_id: u64, idle_ms: u64, interval_ms: u64) -> (r:
    StreamStep)
    requires
        old(broker).wf(),
    ensures
        final(broker).wf(),
        match r {
            StreamStep::Gone => !old(broker).connected(subscriber_id) && *final(broker) == *old(broker),
            StreamStep::End(frame) => {
                &&& old(broker).connected(subscriber_id)
                &&& old(broker).subscribers@[old(broker).place(subscriber_id)].overflowed
                &&& !final(broker).connected(subscriber_id)
                &&& frame@ == spec_heartbeat()
            },
            StreamStep::Wait => {
                &&& old(broker).connected(subscriber_id)
                &&& old(broker).subscribers@[old(broker).place(subscriber_id)].queue@.len() == 0
                &&& idle_ms < interval_ms
                &&& *final(broker) == *old(broker)
            },
            StreamStep::Heartbeat(frame) => {
                &&& old(broker).connected(subscriber_id)
                &&& old(broker).subscribers@[old(broker).place(subscriber_id)].queue@.len() == 0
                &&& idle_ms >= interval_ms
                &&& frame@ == spec_heartbeat()
                &&& *final(broker) == *old(broker)
            },
            StreamStep::Frame(frame) => {
                let place = old(broker).place(subscriber_id);
                let before = old(broker).subscribers@[place]@;
                &&& old(broker).connected(subscriber_id)
                &&& !before.overflowed
                &&& before.queue.len() > 0
                &&& frame@ == spec_frame(before.queue[0])
                &&& final(broker).subscribers@.len() == old(broker).subscribers@.len()
                &&& final(broker).subscribers@[place]@ == (SubscriberView {
                    queue: before.queue.drop_first(),
                    last_delivered_id: before.queue[0].id,
                    ..before
                })
            },
        },
{
    match broker.poll(subscriber_id) {
        Polled::Event(event) => StreamStep::Frame(sse_frame(&event)),
        Polled::Overflow => StreamStep::End(heartbeat_frame()),
        Polled::Idle => {
            if heartbeat_due(idle_ms, interval_ms) {
                StreamStep::Heartbeat(heartbeat_frame())
            } else {
                StreamStep::Wait
            }
        },
        Polled::Unknown => StreamStep::Gone,
    }
}

} // verus!
