//! The message bus: every task publishes `topic:payload` strings to a tokio
//! broadcast channel, and every subscriber receives all of them.
use vstd::prelude::*;
use crate::text::concat;

verus! {

/// How many messages the channel holds for a slow subscriber.
pub const BUS_CAPACITY: usize = 256;

#[verifier::external_type_specification]
#[verifier::external_body]
#[verifier::reject_recursive_types(T)]
pub struct ExBroadcastSender<T>(tokio::sync::broadcast::Sender<T>);

#[verifier::external_type_specification]
#[verifier::external_body]
#[verifier::reject_recursive_types(T)]
pub struct ExBroadcastReceiver<T>(tokio::sync::broadcast::Receiver<T>);

/// A message for the bus: a topic and a payload.
#[derive(Clone, Debug, PartialEq)]
pub struct BusMessage {
    pub topic: String,
    pub payload: String,
}

/// The (topic, payload) texts of a message.
pub open spec fn message_of(m: BusMessage) -> (Seq<char>, Seq<char>) {
    (m.topic@, m.payload@)
}

/// The string a message travels as: `topic:payload`.
pub open spec fn wire_text(topic: Seq<char>, payload: Seq<char>) -> Seq<char> {
    topic + ":"@ + payload
}

/// A message with the given topic and payload.
pub fn bus_message(topic: &str, payload: &str) -> (r: BusMessage)
    ensures
        message_of(r) == (topic@, payload@),
{
    BusMessage { topic: crate::text::owned(topic), payload: crate::text::owned(payload) }
}

/// The string that publishing `payload` on `topic` sends.
pub fn wire(topic: &str, payload: &str) -> (r: String)
    ensures
        r@ == wire_text(topic@, payload@),
{
    concat(concat(topic, ":").as_str(), payload)
}

/// Calls `tokio::sync::broadcast::channel(capacity)`, which panics on a capacity of
/// zero or above `usize::MAX / 2`, and keeps the sending half (the first receiver
/// is dropped). Nothing is claimed of the channel.
#[verifier::external_body]
fn open_channel(capacity: usize) -> (r: tokio::sync::broadcast::Sender<String>)
    requires
        0 < capacity <= usize::MAX / 2,
{
    tokio::sync::broadcast::channel(capacity).0
}

/// Calls `Sender::send`, which queues `msg` for every current subscriber and fails
/// when there is none; the outcome is not reported.
#[verifier::external_body]
fn send_text(sender: &tokio::sync::broadcast::Sender<String>, msg: String) {
    let _ = sender.send(msg);
}

/// Calls `Sender::subscribe`. Its source panics only when `usize::MAX >> 2`
/// receivers already exist, which this library does not claim to rule out.
#[verifier::external_body]
fn subscribe_to(sender: &tokio::sync::broadcast::Sender<String>) -> tokio::sync::broadcast::Receiver<String> {
    sender.subscribe()
}

/// The bus: the sending half of a broadcast channel of strings.
pub struct MessageBus {
    sender: tokio::sync::broadcast::Sender<String>,
}

impl MessageBus {
    /// A bus whose channel holds `BUS_CAPACITY` messages.
    pub fn new() -> Self {
        MessageBus { sender: open_channel(BUS_CAPACITY) }
    }

    /// Publishes `payload` on `topic`: the string `topic:payload` is sent to every
    /// subscriber (see `wire`).
    pub fn publish(&self, topic: &str, payload: &str) {
        let msg = wire(topic, payload);
        send_text(&self.sender, msg);
    }

    /// Publishes a message (see `publish`).
    pub fn publish_message(&self, m: &BusMessage) {
        self.publish(m.topic.as_str(), m.payload.as_str());
    }

    /// A receiver of every message published from now on.
    pub fn subscribe(&self) -> tokio::sync::broadcast::Receiver<String> {
        subscribe_to(&self.sender)
    }
}

} // verus!
