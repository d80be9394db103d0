//! Connection-establishment and virtual-networking core of a relay node.
//!
//! `ports` and `vnet` give an overlay node its private space of virtual UDP
//! ports; `handshake` holds the decisions of the agent listener.

pub mod channel;
pub mod handshake;
pub mod ports;
pub mod vnet;
