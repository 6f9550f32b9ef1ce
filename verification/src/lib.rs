//! Rendezvous handshake and relay transport for small peer-to-peer sessions.
//!
//! Peers obtain an identity from a rendezvous server over a line-oriented
//! control channel, resolve a relay port, and then exchange fixed-size
//! snapshot datagrams through the relay.  This crate holds the protocol
//! rules: the wire codec, the control-line grammar, the handshake state
//! machines, the pump decisions and the table of remote peers.  Sockets and
//! threads are left to the caller.

pub mod error;
pub mod control_line;
pub mod noray_client;
pub mod packet_handler;
pub mod remote_player;
pub mod session;
pub mod transport;
