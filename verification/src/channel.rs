//! The channel of `async_std` that carries packets to a socket.

use crate::vnet::NetworkPkt;
use async_std::channel::{Receiver, Sender};
use vstd::prelude::*;

verus! {

/// The sending half of a channel of `async_std`, carried as an opaque value.
#[verifier::external_type_specification]
#[verifier::external_body]
#[verifier::reject_recursive_types(T)]
pub struct ExSender<T>(async_std::channel::Sender<T>);

/// The receiving half of a channel of `async_std`, carried as an opaque value.
#[verifier::external_type_specification]
#[verifier::external_body]
#[verifier::reject_recursive_types(T)]
pub struct ExReceiver<T>(async_std::channel::Receiver<T>);

/// Why a packet was not taken by a socket's queue; each holds the packet.
#[derive(Debug)]
pub enum SendFailure {
    /// The queue holds as many packets as it has room for.
    Full(NetworkPkt),
    /// The receiving half is gone.
    Closed(NetworkPkt),
}

/// Calls `async_std::channel::bounded`, which makes a channel with room for
/// `cap` messages and panics when `cap` is zero. Nothing is claimed of the
/// two halves.
#[verifier::external_body]
pub(crate) fn bounded(cap: usize) -> (halves: (Sender<NetworkPkt>, Receiver<NetworkPkt>))
    requires
        cap > 0,
{
    async_std::channel::bounded(cap)
}

/// Calls `Sender::try_send`, which never waits. Whether the packet is taken
/// depends on what the other tasks did, so only this is claimed: a refusal
/// hands back the very packet that was offered.
#[verifier::external_body]
pub(crate) fn try_send(tx: &Sender<NetworkPkt>, pkt: NetworkPkt) -> (sent: Result<(), SendFailure>)
    ensures
        match sent {
            Ok(_) => true,
            Err(SendFailure::Full(p)) => p == pkt,
            Err(SendFailure::Closed(p)) => p == pkt,
        },
{
    match tx.try_send(pkt) {
        Ok(()) => Ok(()),
        Err(async_std::channel::TrySendError::Full(p)) => Err(SendFailure::Full(p)),
        Err(async_std::channel::TrySendError::Closed(p)) => Err(SendFailure::Closed(p)),
    }
}

} // verus!
