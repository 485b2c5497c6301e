//! What a node tells the users of its public interface.

use crate::address::{ChunkAddress, RegisterAddress};
use crate::dbc::DbcId;
use vstd::prelude::*;

verus! {

/// The number of events that the broadcast channel of a node holds. Where
/// more are waiting, the oldest are dropped.
pub const NODE_EVENT_CHANNEL_SIZE: usize = 10_000;

/// An event that the node broadcasts.
#[derive(Clone, Copy, Debug, PartialEq, Eq)]
pub enum NodeEvent {
    /// The node dials a first peer and tries to connect to the network.
    AttemptingNetworkConnection,
    /// The attempt to connect to the network is timing out.
    NetworkConnectionTimingOut,
    /// The node is connected to the network.
    ConnectedToNetwork,
    /// A chunk has been stored.
    ChunkStored(ChunkAddress),
    /// A register has been created.
    RegisterCreated(RegisterAddress),
    /// An edit has been applied to a register.
    RegisterEdited(RegisterAddress),
    /// A spend has been recorded.
    SpendStored(DbcId),
    /// A channel of the node closed and cannot be recovered.
    ChannelClosed,
    /// The node is behind a NAT, and so cannot be reached from outside.
    BehindNat,
}

} // verus!
