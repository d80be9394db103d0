//! The virtual network of one node: many virtual UDP ports over one channel
//! of inbound packets and one channel of outbound events.

use crate::channel::{bounded, try_send, SendFailure};
use crate::ports::{all_ports, is_lowest, PortPool, PORT_LIMIT};
use async_std::channel::{Receiver, Sender};
use std::collections::HashMap;
use vstd::prelude::*;

verus! {

broadcast use vstd::std_specs::hash::group_hash_axioms;

/// How many packets the inbound queue of one socket holds.
pub const SOCKET_QUEUE_SIZE: usize = 1000;

/// How many packets from the overlay may wait for the network.
pub const INBOUND_QUEUE_SIZE: usize = 1000;

/// How many events of the network may wait for the outside world.
pub const OUTBOUND_QUEUE_SIZE: usize = 1000;

/// A datagram to or from a virtual port of this node.
#[derive(Debug, Clone, PartialEq, Eq)]
pub struct NetworkPkt {
    pub local_port: u16,
    pub remote: u32,
    pub remote_port: u16,
    pub data: Vec<u8>,
    pub meta: u8,
}

/// What the virtual network tells the outside world.
#[derive(Debug, Clone, PartialEq, Eq)]
pub enum OutEvent {
    Bind(u16),
    Pkt(NetworkPkt),
    Unbind(u16),
}

/// What the owning task hands to `VirtualNetwork::recv`.
#[derive(Debug)]
pub enum InEvent {
    /// A socket asked for its port to be closed.
    Close(u16),
    /// A packet came in from the overlay.
    Packet(NetworkPkt),
    /// The source of inbound packets is closed for good.
    Shutdown,
}

/// What became of an inbound packet.
#[derive(Debug)]
pub enum Delivery {
    /// The socket's queue took the packet.
    Delivered,
    /// The socket's queue did not take the packet, which is dropped.
    Dropped(SendFailure),
    /// No socket is bound to the packet's port; the packet is dropped.
    NoSocket(NetworkPkt),
}

/// What one call of `VirtualNetwork::recv` did.
#[derive(Debug)]
pub enum Processed {
    /// A port was closed; the event is to be sent out.
    Closed(OutEvent),
    /// A packet was handled.
    Packet(Delivery),
}

/// A port that was just bound.
pub struct Binding {
    /// The port.
    pub port: u16,
    /// The event to send out before the socket is used.
    pub announce: OutEvent,
    /// The receiving half of the socket's inbound queue.
    pub inbound: Receiver<NetworkPkt>,
}

/// What becomes of a packet for a bound port, given what the socket's queue
/// answered.
pub open spec fn delivery_of(sent: Result<(), SendFailure>) -> Delivery {
    match sent {
        Ok(_) => Delivery::Delivered,
        Err(failure) => Delivery::Dropped(failure),
    }
}

/// The outcome of a handoff to a bound socket's queue.
pub fn delivery_after(sent: Result<(), SendFailure>) -> (d: Delivery)
    ensures
        d == delivery_of(sent),
{
    match sent {
        Ok(_) => Delivery::Delivered,
        Err(failure) => Delivery::Dropped(failure),
    }
}

/// The port space of one node: which ports are free, and the sending half of
/// the inbound queue of each bound port.
pub struct VirtualNetwork {
    node_id: u32,
    sockets: HashMap<u16, Sender<NetworkPkt>>,
    ports: PortPool,
}

impl VirtualNetwork {
    /// The node that this network belongs to.
    pub closed spec fn node(&self) -> u32 {
        self.node_id
    }

    /// The free ports.
    pub closed spec fn free_ports(&self) -> Set<u16> {
        self.ports@
    }

    /// The sending half of each bound port's queue.
    pub closed spec fn sockets(&self) -> Map<u16, Sender<NetworkPkt>> {
        self.sockets@
    }

    /// The bound ports.
    pub open spec fn bound_ports(&self) -> Set<u16> {
        self.sockets().dom()
    }

    /// Each virtual port is either free or bound to one socket, never both,
    /// and nothing else is free or bound.
    pub closed spec fn wf(&self) -> bool {
        &&& self.ports.wf()
        &&& forall|p: u16|
            #![trigger self.sockets@.contains_key(p)]
            #![trigger self.ports@.contains(p)]
            self.sockets@.contains_key(p) <==> p < PORT_LIMIT && !self.ports@.contains(p)
    }

    /// What `wf` says, over the two sets.
    pub proof fn lemma_partition(&self)
        requires
            self.wf(),
        ensures
            self.free_ports().disjoint(self.bound_ports()),
            self.free_ports().union(self.bound_ports()) == all_ports(),
    {
        assert forall|p: u16| self.ports@.contains(p) implies p < PORT_LIMIT by {
            let k = choose|k: int| 0 <= k < self.ports.order().len() && self.ports.order()[k] == p;
        }
        assert(self.free_ports().union(self.bound_ports()) =~= all_ports());
    }

    /// A network of node `node_id` in which every port is free.
    pub fn new(node_id: u32) -> (net: VirtualNetwork)
        ensures
            net.wf(),
            net.node() == node_id,
            net.free_ports() == all_ports(),
            net.bound_ports() == Set::<u16>::empty(),
    {
        let net = VirtualNetwork { node_id, sockets: HashMap::new(), ports: PortPool::new() };
        assert(net.bound_ports() =~= Set::<u16>::empty());
        net
    }

    /// The node that this network belongs to.
    pub fn node_id(&self) -> (id: u32)
        ensures
            id == self.node(),
    {
        self.node_id
    }

    /// Whether `port` is free.
    pub fn is_free(&self, port: u16) -> (free: bool)
        requires
            self.wf(),
        ensures
            free == self.free_ports().contains(port),
    {
        self.ports.contains(port)
    }

    /// Whether a socket is bound to `port`.
    pub fn is_bound(&self, port: u16) -> (bound: bool)
        ensures
            bound == self.bound_ports().contains(port),
    {
        self.sockets.contains_key(&port)
    }

    /// Binds a socket to `port`, or to the lowest free port where `port` is 0.
    /// With `port` above 0 the port has to be free. Where no port is free
    /// nothing is bound and nothing changes.
    pub fn udp_socket(&mut self, port: u16) -> (bound: Option<Binding>)
        requires
            old(self).wf(),
            port > 0 ==> old(self).free_ports().contains(port),
        ensures
            final(self).wf(),
            final(self).node() == old(self).node(),
            match bound {
                Some(b) => {
                    &&& old(self).free_ports().contains(b.port)
                    &&& port > 0 ==> b.port == port
                    &&& port == 0 ==> is_lowest(old(self).free_ports(), b.port)
                    &&& b.announce == OutEvent::Bind(b.port)
                    &&& final(self).free_ports() == old(self).free_ports().remove(b.port)
                    &&& final(self).bound_ports() == old(self).bound_ports().insert(b.port)
                    &&& final(self).sockets().remove(b.port) == old(self).sockets()
                },
                None => {
                    &&& port == 0
                    &&& old(self).free_ports() == Set::<u16>::empty()
                    &&& *final(self) == *old(self)
                },
            },
    {
        proof {
            self.lemma_partition();
        }
        let port = if port > 0 {
            self.ports.take(port);
            port
        } else {
            match self.ports.take_lowest() {
                Some(lowest) => lowest,
                None => {
                    return None;
                },
            }
        };
        let (tx, rx) = bounded(SOCKET_QUEUE_SIZE);
        self.sockets.insert(port, tx);
        proof {
            assert(final(self).sockets().remove(port) =~= old(self).sockets());
            assert(final(self).bound_ports() =~= old(self).bound_ports().insert(port));
        }
        Some(Binding { port, announce: OutEvent::Bind(port), inbound: rx })
    }

    /// Closes `port`: a bound port becomes free again and loses its socket;
    /// for any other port nothing changes. Either way the event to send out
    /// is `Unbind(port)`.
    pub fn close_socket(&mut self, port: u16) -> (event: OutEvent)
        requires
            old(self).wf(),
        ensures
            final(self).wf(),
            final(self).node() == old(self).node(),
            event == OutEvent::Unbind(port),
            old(self).bound_ports().contains(port) ==> {
                &&& final(self).free_ports() == old(self).free_ports().insert(port)
                &&& final(self).bound_ports() == old(self).bound_ports().remove(port)
                &&& final(self).sockets() == old(self).sockets().remove(port)
                &&& final(self).free_ports().contains(port)
                &&& !final(self).bound_ports().contains(port)
            },
            !old(self).bound_ports().contains(port) ==> *final(self) == *old(self),
    {
        if self.sockets.contains_key(&port) {
            self.ports.release(port);
            let _ = self.sockets.remove(&port);
            proof {
                assert(final(self).sockets() =~= old(self).sockets().remove(port));
                assert(final(self).bound_ports() =~= old(self).bound_ports().remove(port));
            }
        }
        OutEvent::Unbind(port)
    }

    /// The sending half of the queue of the socket bound to `port`, if one
    /// is bound to it.
    pub fn socket(&self, port: u16) -> (tx: Option<&Sender<NetworkPkt>>)
        ensures
            match tx {
                Some(tx) => self.bound_ports().contains(port) && *tx == self.sockets()[port],
                None => !self.bound_ports().contains(port),
            },
    {
        self.sockets.get(&port)
    }

    /// Hands `pkt` to the queue of the socket bound to its `local_port`,
    /// without waiting. The network itself does not change.
    pub fn deliver(&self, pkt: NetworkPkt) -> (d: Delivery)
        ensures
            !self.bound_ports().contains(pkt.local_port) ==> d == Delivery::NoSocket(pkt),
            self.bound_ports().contains(pkt.local_port) ==> match d {
                Delivery::Delivered => true,
                Delivery::Dropped(SendFailure::Full(p)) => p == pkt,
                Delivery::Dropped(SendFailure::Closed(p)) => p == pkt,
                Delivery::NoSocket(_) => false,
            },
    {
        match self.socket(pkt.local_port) {
            Some(tx) => delivery_after(try_send(tx, pkt)),
            None => Delivery::NoSocket(pkt),
        }
    }

    /// Handles one event: closes a port, or hands a packet on. `None` means
    /// that the inbound source is closed and nothing more will come.
    pub fn recv(&mut self, event: InEvent) -> (done: Option<Processed>)
        requires
            old(self).wf(),
        ensures
            final(self).wf(),
            final(self).node() == old(self).node(),
            match event {
                InEvent::Close(port) => {
                    &&& done == Some(Processed::Closed(OutEvent::Unbind(port)))
                    &&& final(self).free_ports() == closed_free(
                        old(self).free_ports(),
                        old(self).bound_ports(),
                        port,
                    )
                    &&& final(self).sockets() == old(self).sockets().remove(port)
                },
                InEvent::Packet(pkt) => {
                    &&& *final(self) == *old(self)
                    &&& done matches Some(Processed::Packet(d))
                    &&& !old(self).bound_ports().contains(pkt.local_port) ==> d
                        == Delivery::NoSocket(pkt)
                    &&& old(self).bound_ports().contains(pkt.local_port) ==> match d {
                        Delivery::Delivered => true,
                        Delivery::Dropped(SendFailure::Full(p)) => p == pkt,
                        Delivery::Dropped(SendFailure::Closed(p)) => p == pkt,
                        Delivery::NoSocket(_) => false,
                    }
                },
                InEvent::Shutdown => done.is_none() && *final(self) == *old(self),
            },
    {
        match event {
            InEvent::Close(port) => {
                let out = self.close_socket(port);
                proof {
                    assert(old(self).sockets().remove(port) =~= final(self).sockets());
                }
                Some(Processed::Closed(out))
            },
            InEvent::Packet(pkt) => Some(Processed::Packet(self.deliver(pkt))),
            InEvent::Shutdown => None,
        }
    }
}

/// The free ports after a close of `port`: a bound port joins them.
pub open spec fn closed_free(free: Set<u16>, bound: Set<u16>, port: u16) -> Set<u16> {
    if bound.contains(port) {
        free.insert(port)
    } else {
        free
    }
}

} // verus!
