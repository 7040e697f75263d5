//! All message type codes used in the signaling protocol.

use vstd::prelude::*;

verus! {

/// Client to server: register with peer ID and public key.
pub const REGISTER: u8 = 0x01;

/// Server to client: acknowledgement with assigned ID and public address.
pub const REGISTER_ACK: u8 = 0x02;

/// Client to server: request a connection to a peer.
pub const CONNECT_REQUEST: u8 = 0x03;

/// Server to client: offer with the peer's information and a session ID.
pub const CONNECT_OFFER: u8 = 0x04;

/// Client to server: accept a connection offer.
pub const CONNECT_ACCEPT: u8 = 0x05;

/// Both directions: relay candidate (STUN/TURN).
pub const RELAY_CANDIDATE: u8 = 0x06;

/// Client to server: keepalive heartbeat.
pub const HEARTBEAT: u8 = 0x07;

/// Client to server: graceful disconnect.
pub const BYE: u8 = 0x08;

/// Server to client: error.
pub const ERROR: u8 = 0xFF;

} // verus!
