//! The broadcast channel that carries a room's messages.
//!
//! The channel is tokio's `sync::broadcast`. Its two handle types are opaque
//! here, and nothing in this module is proved: each function states what the
//! channel's documentation promises and no more.

use crate::message::ChatMessage;
use vstd::prelude::*;

verus! {

/// Declares `tokio::sync::broadcast::Sender`, the sending half of a
/// channel, as a type whose inside is not looked into.
#[verifier::external_type_specification]
#[verifier::external_body]
#[verifier::reject_recursive_types(T)]
pub struct ExSender<T>(tokio::sync::broadcast::Sender<T>);

/// Declares `tokio::sync::broadcast::Receiver`, one receive handle of a
/// channel, as a type whose inside is not looked into.
#[verifier::external_type_specification]
#[verifier::external_body]
#[verifier::reject_recursive_types(T)]
pub struct ExReceiver<T>(tokio::sync::broadcast::Receiver<T>);

/// The number of messages a room's channel retains for a lagging receiver.
pub const ROOM_CAPACITY: usize = 16;

/// The position at which the channel behind `tx` stores the next message
/// it takes. It starts at zero and moves on by one, around the end of `u64`,
/// with every message taken.
pub uninterp spec fn next_position(tx: tokio::sync::broadcast::Sender<ChatMessage>) -> u64;

/// The position of the first message that `rx` is handed, unless it falls
/// so far behind that the channel has overwritten it.
pub uninterp spec fn start_position(rx: tokio::sync::broadcast::Receiver<ChatMessage>) -> u64;

/// The position after `position`.
pub open spec fn position_after(position: u64) -> u64 {
    if position == u64::MAX {
        0
    } else {
        (position + 1) as u64
    }
}

/// Calls `tokio::sync::broadcast::channel` and keeps the sending half.
///
/// The channel panics on a capacity of zero or above `usize::MAX / 2`, which
/// the precondition excludes. The initial receiver is dropped at once, so the
/// channel starts with no receiver, and at position zero.
#[verifier::external_body]
pub(crate) fn open_channel(capacity: usize) -> (tx: tokio::sync::broadcast::Sender<ChatMessage>)
    requires
        0 < capacity <= usize::MAX / 2,
    ensures
        next_position(tx) == 0,
{
    let (tx, _rx) = tokio::sync::broadcast::channel(capacity);
    tx
}

/// Calls `tokio::sync::broadcast::Sender::send`.
///
/// The result is the number of receive handles the message was queued for,
/// or `None` where the channel had no receive handle at that moment, which is
/// the only way the send can fail. Whether there is one depends on handles
/// held elsewhere. A message that is queued takes the next position; one
/// that is not leaves the channel as it was.
///
/// The channel changes behind a shared reference. The handle is taken by
/// exclusive reference here so that the change shows; the room never copies
/// its handle, so nothing else sends on the channel.
#[verifier::external_body]
pub(crate) fn channel_send(
    tx: &mut tokio::sync::broadcast::Sender<ChatMessage>,
    message: ChatMessage,
) -> (receivers: Option<usize>)
    ensures
        match receivers {
            Some(n) => n > 0 && next_position(*final(tx)) == position_after(
                next_position(*old(tx)),
            ),
            None => next_position(*final(tx)) == next_position(*old(tx)),
        },
{
    match tx.send(message) {
        Ok(n) => Some(n),
        Err(_) => None,
    }
}

/// Calls `tokio::sync::broadcast::Sender::subscribe`.
///
/// The new handle starts at the channel's next position: it is handed the
/// messages taken after this call and none that was taken before. The
/// channel refuses more than `usize::MAX >> 2` simultaneous receivers by a
/// panic; as every receiver occupies memory that count cannot be reached.
#[verifier::external_body]
pub(crate) fn channel_subscribe(
    tx: &tokio::sync::broadcast::Sender<ChatMessage>,
) -> (rx: tokio::sync::broadcast::Receiver<ChatMessage>)
    ensures
        start_position(rx) == next_position(*tx),
{
    tx.subscribe()
}

} // verus!
