//! Core of a peer-to-peer storage node and its client: addresses in the XOR
//! metric space, the register CRDT, spend validation, the close-group response
//! rules, the node's request pipeline and its local stores.
//!
//! The library decides and the caller performs: whatever has to wait for the
//! network hands back what is to be done next, and takes in what came of it.

pub mod address;
pub mod client;
pub mod dbc;
pub mod error;
pub mod event;
pub mod keys;
pub mod messages;
pub mod node;
pub mod octets;
pub mod quorum;
pub mod register;
pub mod scan;
pub mod storage;
pub mod text;
pub mod validation;
