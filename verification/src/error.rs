//! Errors: the semantic rejections that go back to a client, and the failures
//! of the transport beneath.

use crate::address::{ChunkAddress, DbcAddress, RegisterAddress};
use crate::dbc::{Digest, SignedSpend};
use crate::register::{EntryHash, User};
use vstd::prelude::*;

verus! {

/// A rejection of a well-formed request. It is returned to the client that
/// sent the request, as it is, and the node never retries.
#[derive(Clone, Copy, Debug, PartialEq, Eq)]
pub enum ProtocolError {
    /// The source transaction that came with a spend does not hash to the
    /// source hash that the spend was signed over.
    SignedSrcTxHashDoesNotMatchProvidedSrcTxHash {
        /// The source hash in the signed spend.
        signed_src_tx_hash: Digest,
        /// The hash of the transaction that was provided.
        provided_src_tx_hash: Digest,
    },
    /// A parent of the spend was consumed in another transaction than the one
    /// that the spend names as its source.
    SpendSrcTxHashParentTxHashMismatch {
        /// The source hash in the signed spend.
        signed_src_tx_hash: Digest,
        /// The destination hash of the parent.
        parent_dst_tx_hash: Digest,
    },
    /// The source transaction does not verify against its parents.
    InvalidSourceTxProvided {
        /// The source hash in the signed spend.
        signed_src_tx_hash: Digest,
        /// The hash of the transaction that was provided.
        provided_src_tx_hash: Digest,
    },
    /// Another spend of the same identifier is already recorded.
    DoubleSpendAttempt {
        /// The spend that was submitted.
        new: SignedSpend,
        /// The spend that is recorded.
        existing: SignedSpend,
    },
    /// The user has no right to do what was asked.
    AccessDenied(User),
    /// The register has more than one latest entry, and the caller has to
    /// merge them.
    ContentBranchDetected,
    /// The operation carries no signature.
    MissingSignature,
    /// The signature does not verify under the source's key.
    InvalidSignature,
    /// The close group answered, but not with what was asked.
    UnexpectedResponses,
    /// No chunk is stored at the address.
    ChunkNotFound(ChunkAddress),
    /// The address that came with a chunk is not the name of its content.
    ChunkAddressMismatch {
        /// The address that came with the chunk.
        claimed: ChunkAddress,
        /// The address of the chunk's content.
        computed: ChunkAddress,
    },
    /// No register is stored at the address.
    RegisterNotFound(RegisterAddress),
    /// A register with another owner or other permissions is stored at the
    /// address.
    RegisterAlreadyExists(RegisterAddress),
    /// The operation is addressed to another register.
    RegisterAddressMismatch {
        /// The address that the operation names.
        dst_addr: RegisterAddress,
        /// The address of the register.
        reg_addr: RegisterAddress,
    },
    /// The register holds no entry with the hash.
    NoSuchEntry(EntryHash),
    /// No spend is recorded at the address.
    SpendNotFound(DbcAddress),
}

/// A failure of the transport towards one peer.
#[derive(Clone, Copy, Debug, PartialEq, Eq)]
pub enum TransportError {
    /// The peer could not be reached.
    PeerUnreachable,
    /// The connection was reset.
    ConnectionReset,
    /// What the peer sent could not be decoded.
    DeserializationFailed,
}

/// What can go wrong for a node or a client.
#[derive(Clone, Copy, Debug, PartialEq, Eq)]
pub enum Error {
    /// A peer rejected the request.
    Protocol(ProtocolError),
    /// The transport failed.
    Network(TransportError),
    /// The peer did not answer within the deadline.
    ResponseTimeout,
    /// The close group answered, but not with what was asked.
    UnexpectedResponses,
    /// The two spends of a reported double spend are no conflict: they are
    /// the same spend, or they consume different identifiers.
    NotADoubleSpend,
}

} // verus!
