//! The broadcast channel of a room.
//!
//! Every room has one `tokio::sync::broadcast` channel. A message sent on it
//! is offered to each receiver that is subscribed at that moment; a receiver
//! that falls behind the channel's capacity loses the oldest messages. The
//! channel is tokio's: what this module says of it is believed, not proved.

use vstd::prelude::*;
use vstd::arithmetic::power2::is_pow2;
use tokio::sync::broadcast::{Receiver, Sender};
use tokio::sync::broadcast::error::SendError;
use crate::models::message::Message;

verus! {

/// The sending half of a broadcast channel. It is also the handle from which
/// new receivers are made.
#[verifier::external_type_specification]
#[verifier::external_body]
#[verifier::reject_recursive_types(T)]
pub struct ExSender<T>(tokio::sync::broadcast::Sender<T>);

/// The receiving half of a broadcast channel: one listener's place in the
/// stream of messages.
#[verifier::external_type_specification]
#[verifier::external_body]
#[verifier::reject_recursive_types(T)]
pub struct ExReceiver<T>(tokio::sync::broadcast::Receiver<T>);

/// What a send returns when no receiver is subscribed.
#[verifier::external_type_specification]
#[verifier::external_body]
#[verifier::reject_recursive_types(T)]
pub struct ExSendError<T>(tokio::sync::broadcast::error::SendError<T>);

/// How many messages a room's channel holds for a listener that is behind.
pub const CHANNEL_CAPACITY: usize = 16;

/// The length of the ring of the channel behind the handle `tx`: how many
/// messages the channel holds for a listener that is behind, before the
/// oldest of them are dropped. tokio makes the ring as long as the least
/// power of two that is no less than the capacity asked for.
pub uninterp spec fn capacity_of(tx: Sender<Message>) -> usize;

/// Whether the handles `a` and `b` are on one channel: what is sent through
/// either reaches the listeners of both. It is what tokio's
/// `Sender::same_channel` answers.
pub uninterp spec fn on_one_channel(a: Sender<Message>, b: Sender<Message>) -> bool;

/// Whether the receiver `rx` listens on the channel that the handle `tx` is
/// on.
pub uninterp spec fn listens_on(rx: Receiver<Message>, tx: Sender<Message>) -> bool;

/// Opens a channel with `tokio::sync::broadcast::channel` and keeps its
/// sending half. The receiver that comes with it is let go, so the channel
/// starts without listeners.
///
/// Trusted: the ring of the channel is no shorter than the capacity asked
/// for, and exactly as long where that is a power of two; tokio rounds every
/// other capacity up to the next power of two. tokio refuses a capacity of
/// zero and one above half of `usize::MAX`; the precondition leaves both
/// out.
#[verifier::external_body]
pub(crate) fn open_channel(capacity: usize) -> (tx: Sender<Message>)
    requires
        0 < capacity <= usize::MAX / 2,
    ensures
        capacity <= capacity_of(tx),
        is_pow2(capacity as int) ==> capacity_of(tx) == capacity,
{
    tokio::sync::broadcast::channel(capacity).0
}

/// Offers `message` to the listeners of the channel, with `Sender::send`.
///
/// Trusted: a send that succeeds reports the number of receivers subscribed
/// at that moment, which is at least one. Whether it succeeds depends on who
/// listens, and the send never waits for a listener.
#[verifier::external_body]
pub(crate) fn publish(tx: &Sender<Message>, message: Message) -> (outcome: Result<
    usize,
    SendError<Message>,
>)
    ensures
        outcome matches Ok(listeners) ==> listeners >= 1,
{
    tx.send(message)
}

/// A second handle on the same channel, with `Sender::clone`.
///
/// Trusted: the new handle is on one channel with `tx`, and so the ring
/// behind it is the ring behind `tx`.
#[verifier::external_body]
pub(crate) fn share(tx: &Sender<Message>) -> (handle: Sender<Message>)
    ensures
        on_one_channel(*tx, handle),
        capacity_of(handle) == capacity_of(*tx),
{
    tx.clone()
}

/// A new listener on the channel, with `Sender::subscribe`. It is sent what
/// is published from now on, and nothing of what was published before.
///
/// Trusted: the receiver listens on the channel that `tx` is on. Nothing is
/// claimed of what it receives. tokio refuses a listener beyond a quarter of
/// `usize::MAX` of them, more than memory can hold.
#[verifier::external_body]
pub(crate) fn subscribe(tx: &Sender<Message>) -> (rx: Receiver<Message>)
    ensures
        listens_on(rx, *tx),
{
    tx.subscribe()
}

/// The number of listeners that a send reached: none where it failed.
pub fn listeners_reached(outcome: &Result<usize, SendError<Message>>) -> (listeners: usize)
    ensures
        listeners == match *outcome {
            Ok(n) => n,
            Err(_) => 0usize,
        },
{
    match outcome {
        Ok(n) => *n,
        Err(_) => 0,
    }
}

} // verus!
