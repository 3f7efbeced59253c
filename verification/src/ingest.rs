//! The decisions of the ingestion loop.
//!
//! The loop itself waits for the broker and writes to the store. After each
//! event it asks [`on_event`] what state it is in now and what to do: nothing,
//! connect again, or handle a message as [`route`] decided.

use vstd::prelude::*;
use crate::clock::utc_now_millis;
use crate::model::{Reading, SensorData};
use crate::registry::Registry;
use crate::topic::{decode, decoded};

verus! {

/// Why a message was dropped without a record.
#[derive(Debug, Clone, Copy, PartialEq, Eq, Structural)]
pub enum Discard {
    /// The topic holds no separator.
    MalformedTopic,
    /// The payload is not a number.
    MalformedPayload,
    /// The topic names a metric that is not registered.
    UnknownMetric,
}

/// What becomes of one published message.
#[derive(Debug)]
pub enum Routing<'a, H> {
    /// Write `record` to `collection`, the collection of `metric`.
    Store { metric: String, collection: &'a H, record: SensorData },
    /// Drop the message.
    Drop(Discard),
}

/// The mathematical content of a [`Routing`].
pub enum Routed<H> {
    Store { metric: Seq<char>, collection: H, record: Reading },
    Drop(Discard),
}

impl<'a, H> View for Routing<'a, H> {
    type V = Routed<H>;

    open spec fn view(&self) -> Routed<H> {
        match *self {
            Routing::Store { metric, collection, record } => Routed::Store {
                metric: metric@,
                collection: *collection,
                record: record@,
            },
            Routing::Drop(reason) => Routed::Drop(reason),
        }
    }
}

/// The fate of a message published on `topic` whose payload parsed to
/// `reading` (`None` when it is not a number), received at `now`.
///
/// The topic is judged first, then the payload, then the metric. A record
/// carries the device of the topic, the instant of reception and the value
/// read.
pub open spec fn routed<H>(
    registry: Registry<H>,
    topic: Seq<char>,
    reading: Option<u32>,
    now: i64,
) -> Routed<H> {
    match decoded(topic) {
        None => Routed::Drop(Discard::MalformedTopic),
        Some((device_id, metric)) => match reading {
            None => Routed::Drop(Discard::MalformedPayload),
            Some(data) => if registry.knows(metric) {
                Routed::Store {
                    metric,
                    collection: registry.collection(metric),
                    record: Reading { device_id, timestamp: now, data },
                }
            } else {
                Routed::Drop(Discard::UnknownMetric)
            },
        },
    }
}

/// Decides what becomes of one published message.
///
/// `reading` is the bit pattern of the number that the payload parsed to, or
/// `None` when the payload is not a number. `now` is the instant of reception
/// in milliseconds since the Unix epoch.
pub fn route<'a, H>(
    registry: &'a Registry<H>,
    topic: &str,
    reading: Option<u32>,
    now: i64,
) -> (routing: Routing<'a, H>)
    ensures
        routing@ == routed(*registry, topic@, reading, now),
{
    let (device_id, metric) = match decode(topic) {
        Ok(parts) => parts,
        Err(_) => {
            return Routing::Drop(Discard::MalformedTopic);
        },
    };
    let data = match reading {
        Some(data) => data,
        None => {
            return Routing::Drop(Discard::MalformedPayload);
        },
    };
    match registry.lookup(metric.as_str()) {
        Some(collection) => Routing::Store {
            metric,
            collection,
            record: SensorData::new(device_id, now, data),
        },
        None => Routing::Drop(Discard::UnknownMetric),
    }
}

/// Where the loop stands with the broker.
#[derive(Debug, Clone, Copy, PartialEq, Eq, Structural)]
pub enum LinkState {
    /// No connection is established.
    Connecting,
    /// The broker accepted the connection and the subscriptions are in force.
    Subscribed,
    /// Messages are arriving.
    Receiving,
}

/// What the loop learns in one turn.
#[derive(Debug, Clone, PartialEq, Eq)]
pub enum LoopEvent {
    /// The broker accepted the connection.
    Connected,
    /// A message arrived. `reading` is the bit pattern of the number in its
    /// payload, or `None` when the payload is not a number.
    Publish { topic: String, reading: Option<u32> },
    /// Any other packet of the broker.
    Other,
    /// The connection to the broker failed.
    ConnectionError,
    /// The store refused or lost the last write.
    WriteFailed,
}

/// What the loop does next.
#[derive(Debug)]
pub enum Action<'a, H> {
    /// Wait for the next event.
    Idle,
    /// Connect again, at once.
    Reconnect,
    /// Handle the message as decided.
    Ingest(Routing<'a, H>),
}

/// The mathematical content of an [`Action`].
pub enum Reaction<H> {
    Idle,
    Reconnect,
    Ingest(Routed<H>),
}

impl<'a, H> View for Action<'a, H> {
    type V = Reaction<H>;

    open spec fn view(&self) -> Reaction<H> {
        match *self {
            Action::Idle => Reaction::Idle,
            Action::Reconnect => Reaction::Reconnect,
            Action::Ingest(routing) => Reaction::Ingest(routing@),
        }
    }
}

/// The state after an event. A connection error leads back to `Connecting`
/// from anywhere, the broker's acceptance to `Subscribed`, a message to
/// `Receiving`; nothing else moves the loop, and no state ends it.
pub open spec fn next_state(state: LinkState, event: LoopEvent) -> LinkState {
    match event {
        LoopEvent::Connected => LinkState::Subscribed,
        LoopEvent::Publish { .. } => LinkState::Receiving,
        LoopEvent::ConnectionError => LinkState::Connecting,
        LoopEvent::Other | LoopEvent::WriteFailed => state,
    }
}

/// What the loop does about an event that it learns at `now`. A message is
/// routed; a lost connection is made again without delay; a failed write is
/// not tried again.
pub open spec fn reaction<H>(registry: Registry<H>, event: LoopEvent, now: i64) -> Reaction<H> {
    match event {
        LoopEvent::Publish { topic, reading } => Reaction::Ingest(
            routed(registry, topic@, reading, now),
        ),
        LoopEvent::ConnectionError => Reaction::Reconnect,
        LoopEvent::Connected | LoopEvent::Other | LoopEvent::WriteFailed => Reaction::Idle,
    }
}

/// One turn of the loop for an event learnt at `now`: the next state and what
/// to do.
pub fn react<'a, H>(
    state: LinkState,
    event: &LoopEvent,
    registry: &'a Registry<H>,
    now: i64,
) -> (turn: (LinkState, Action<'a, H>))
    ensures
        turn.0 == next_state(state, *event),
        turn.1@ == reaction(*registry, *event, now),
{
    match event {
        LoopEvent::Connected => (LinkState::Subscribed, Action::Idle),
        LoopEvent::Publish { topic, reading } => (
            LinkState::Receiving,
            Action::Ingest(route(registry, topic.as_str(), *reading, now)),
        ),
        LoopEvent::ConnectionError => (LinkState::Connecting, Action::Reconnect),
        LoopEvent::Other => (state, Action::Idle),
        LoopEvent::WriteFailed => (state, Action::Idle),
    }
}

/// One turn of the loop for an event learnt just now. The instant is read
/// from the clock, so the contract holds for whatever the clock said.
pub fn on_event<'a, H>(
    state: LinkState,
    event: &LoopEvent,
    registry: &'a Registry<H>,
) -> (turn: (LinkState, Action<'a, H>))
    ensures
        turn.0 == next_state(state, *event),
        exists|now: i64| turn.1@ == #[trigger] reaction(*registry, *event, now),
{
    let now = utc_now_millis();
    react(state, event, registry, now)
}

/// A number published on a well-formed topic of a registered metric yields
/// exactly one record: it holds that number, the device named by the first
/// segment of the topic and the instant of reception, and goes to the
/// collection of the metric.
pub proof fn lemma_number_is_stored<H>(
    registry: Registry<H>,
    topic: Seq<char>,
    data: u32,
    now: i64,
)
    requires
        decoded(topic) is Some,
        registry.knows(decoded(topic).unwrap().1),
    ensures
        routed(registry, topic, Some(data), now) == (Routed::Store {
            metric: decoded(topic).unwrap().1,
            collection: registry.collection(decoded(topic).unwrap().1),
            record: Reading { device_id: decoded(topic).unwrap().0, timestamp: now, data },
        }),
{
}

/// A payload that is not a number yields no record, whatever the topic.
pub proof fn lemma_no_number_no_record<H>(registry: Registry<H>, topic: Seq<char>, now: i64)
    ensures
        routed(registry, topic, None, now) is Drop,
{
}

/// A message for a metric that is not registered yields no record, and the
/// loop goes on: it is in `Receiving` afterwards, and what it does about the
/// next event depends on that event alone.
pub proof fn lemma_unknown_metric_is_dropped<H>(
    registry: Registry<H>,
    state: LinkState,
    topic: String,
    reading: Option<u32>,
    now: i64,
)
    requires
        decoded(topic@) is Some,
        !registry.knows(decoded(topic@).unwrap().1),
    ensures
        routed(registry, topic@, reading, now) is Drop,
        reading is Some ==> routed(registry, topic@, reading, now) == Routed::<H>::Drop(
            Discard::UnknownMetric,
        ),
        next_state(state, LoopEvent::Publish { topic, reading }) == LinkState::Receiving,
        forall|next: LoopEvent, later: i64|
            next is Publish ==> #[trigger] reaction(registry, next, later) == Reaction::Ingest(
                routed(registry, next->topic@, next->reading, later),
            ),
{
}

} // verus!
