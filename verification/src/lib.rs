//! Broadcast/dissemination overlay network core.
//!
//! Peers form per-source spanning trees; a publisher's payload is injected at
//! a tree root and relayed hop-by-hop to every subscriber. This crate holds
//! the verified core: wire framing and header bit-packing, the address book,
//! the route table, the timed wait list, the MLBT relay-control state machine,
//! and the pure decision logic of the overlay engine.

use vstd::prelude::*;

pub mod bidirct_hashmap;
pub mod codec;
pub mod engine;
pub mod error;
pub mod identity;
pub mod measure;
pub mod message;
pub mod mlbt;
pub mod mlbt_message;
pub mod mlbt_stat;
pub mod mlbt_wait;
pub mod msg_header;
pub mod peer_map;
pub mod route;
pub mod route_ctl;
pub mod sock;
pub mod utils;

verus! {

/// Default port a node listens on.
pub const DEFAULT_BDN_PORT: u16 = 10450;

/// Longest frame allowed on the wire, length prefix included.
pub const MSG_MAXLEN: usize = 2048;

} // verus!
