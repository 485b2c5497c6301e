//! Spends and the transactions that create them.
//!
//! A signed spend is held as the values that the node reads: the consumed
//! identifier, the two transaction hashes, the blinded amount and the
//! signature. A transaction is held with its hash and the identifiers of its
//! inputs beside the value that `sn_dbc` verifies.

use crate::address::{content_name, DbcAddress, XorName};
use crate::keys::Signature;
use crate::octets::{array_eq, array_less, array_to_vec};
use vstd::prelude::*;

verus! {

/// A SHA3-256 digest, such as the hash of a transaction.
#[derive(Clone, Copy, Debug, PartialEq, Eq, PartialOrd, Ord, Hash)]
pub struct Digest(pub [u8; 32]);

impl View for Digest {
    type V = Seq<u8>;

    open spec fn view(&self) -> Seq<u8> {
        self.0@
    }
}

impl Digest {
    /// Whether two digests are the same.
    pub fn equals(&self, other: &Digest) -> (same: bool)
        ensures
            same == (*self == *other),
            same == (self@ == other@),
    {
        array_eq(&self.0, &other.0)
    }
}

/// The one-time identifier of a DBC: a BLS public key, 48 bytes.
#[derive(Clone, Copy, Debug, PartialEq, Eq, PartialOrd, Ord, Hash)]
pub struct DbcId(pub [u8; 48]);

impl View for DbcId {
    type V = Seq<u8>;

    open spec fn view(&self) -> Seq<u8> {
        self.0@
    }
}

impl DbcId {
    /// Whether two identifiers are the same.
    pub fn equals(&self, other: &DbcId) -> (same: bool)
        ensures
            same == (*self == *other),
            same == (self@ == other@),
    {
        array_eq(&self.0, &other.0)
    }
}

/// An amount hidden in a Pedersen commitment: a compressed curve point.
#[derive(Clone, Copy, Debug, PartialEq, Eq, PartialOrd, Ord, Hash)]
pub struct BlindedAmount(pub [u8; 32]);

impl View for BlindedAmount {
    type V = Seq<u8>;

    open spec fn view(&self) -> Seq<u8> {
        self.0@
    }
}

impl BlindedAmount {
    /// Whether two blinded amounts are the same.
    pub fn equals(&self, other: &BlindedAmount) -> (same: bool)
        ensures
            same == (*self == *other),
    {
        array_eq(&self.0, &other.0)
    }
}

/// The address at which the spend of an identifier is recorded.
pub open spec fn spec_dbc_address(dbc_id: DbcId) -> Seq<u8> {
    content_name(dbc_id@)
}

/// The address at which the spend of an identifier is recorded: the XOR-name
/// of the identifier's bytes.
pub fn dbc_address(dbc_id: &DbcId) -> (address: DbcAddress)
    ensures
        address.0@ == spec_dbc_address(*dbc_id),
{
    let bytes = array_to_vec(&dbc_id.0);
    DbcAddress::new(XorName::from_content(&bytes))
}

/// A signed statement that an identifier is consumed as an input of a
/// transaction.
#[derive(Clone, Copy, Debug, PartialEq, Eq, PartialOrd, Ord, Hash)]
pub struct SignedSpend {
    /// The identifier that is consumed.
    pub dbc_id: DbcId,
    /// The hash of the transaction in which the identifier was created.
    pub src_tx_hash: Digest,
    /// The hash of the transaction in which the identifier is consumed.
    pub dst_tx_hash: Digest,
    /// Why the identifier was spent.
    pub reason: Digest,
    /// The amount of the identifier, blinded.
    pub blinded_amount: BlindedAmount,
    /// The signature of the identifier's key over the spend.
    pub derived_key_sig: Signature,
}

impl SignedSpend {
    /// The identifier that is consumed.
    pub fn dbc_id(&self) -> (id: &DbcId)
        ensures
            *id == self.dbc_id,
    {
        &self.dbc_id
    }

    /// The hash of the transaction in which the identifier was created.
    pub fn src_tx_hash(&self) -> (hash: Digest)
        ensures
            hash == self.src_tx_hash,
    {
        self.src_tx_hash
    }

    /// The hash of the transaction in which the identifier is consumed.
    pub fn dst_tx_hash(&self) -> (hash: Digest)
        ensures
            hash == self.dst_tx_hash,
    {
        self.dst_tx_hash
    }

    /// The amount of the identifier, blinded.
    pub fn blinded_amount(&self) -> (amount: &BlindedAmount)
        ensures
            *amount == self.blinded_amount,
    {
        &self.blinded_amount
    }

    /// The address at which this spend is recorded.
    pub open spec fn spec_address(&self) -> Seq<u8> {
        spec_dbc_address(self.dbc_id)
    }

    /// The address at which this spend is recorded.
    pub fn address(&self) -> (address: DbcAddress)
        ensures
            address.0@ == self.spec_address(),
    {
        dbc_address(&self.dbc_id)
    }

    /// Whether two spends are the same in every field.
    pub fn equals(&self, other: &SignedSpend) -> (same: bool)
        ensures
            same == (*self == *other),
    {
        self.dbc_id.equals(&other.dbc_id) && self.src_tx_hash.equals(&other.src_tx_hash)
            && self.dst_tx_hash.equals(&other.dst_tx_hash) && self.reason.equals(&other.reason)
            && self.blinded_amount.equals(&other.blinded_amount) && self.derived_key_sig.equals(
            &other.derived_key_sig,
        )
    }

    /// Whether this spend comes before `other` where spends are kept in
    /// order: by identifier first, then by signature.
    pub open spec fn precedes(&self, other: &SignedSpend) -> bool {
        crate::octets::lex_less(self.dbc_id@, other.dbc_id@) || (self.dbc_id == other.dbc_id
            && crate::octets::lex_less(self.derived_key_sig@, other.derived_key_sig@))
    }

    /// Whether the two spends have one place in that order: the same
    /// identifier and the same signature.
    pub open spec fn same_place(&self, other: &SignedSpend) -> bool {
        self.dbc_id == other.dbc_id && self.derived_key_sig == other.derived_key_sig
    }

    /// Whether this spend comes before `other` in the order of spends.
    pub fn comes_before(&self, other: &SignedSpend) -> (before: bool)
        ensures
            before == self.precedes(other),
    {
        if self.dbc_id.equals(&other.dbc_id) {
            proof {
                crate::octets::lemma_lex_irreflexive(self.dbc_id@);
            }
            array_less(&self.derived_key_sig.0, &other.derived_key_sig.0)
        } else {
            array_less(&self.dbc_id.0, &other.dbc_id.0)
        }
    }
}

/// A transaction, as `sn_dbc` holds it.
#[verifier::external_type_specification]
#[verifier::external_body]
pub struct ExDbcTransaction(sn_dbc::DbcTransaction);

/// `Clone` of `sn_dbc::DbcTransaction`: the copy is the same transaction.
pub assume_specification[ <sn_dbc::DbcTransaction as Clone>::clone ](
    tx: &sn_dbc::DbcTransaction,
) -> (copy: sn_dbc::DbcTransaction)
    ensures
        copy == *tx,
;

/// The hash that `sn_dbc::DbcTransaction::hash` gives to a transaction.
pub uninterp spec fn tx_hash(tx: sn_dbc::DbcTransaction) -> Seq<u8>;

/// The identifiers of the inputs that an `sn_dbc::DbcTransaction` holds, each
/// by its bytes, in the transaction's order.
pub uninterp spec fn tx_input_ids(tx: sn_dbc::DbcTransaction) -> Seq<Seq<u8>>;

/// The bytes of each identifier of a list.
pub open spec fn id_views(ids: Seq<DbcId>) -> Seq<Seq<u8>> {
    Seq::new(ids.len(), |i: int| ids[i]@)
}

/// Calls `sn_dbc::DbcTransaction::hash` and copies the digest out. The hash
/// depends on the transaction alone.
#[verifier::external_body]
fn hash_of(tx: &sn_dbc::DbcTransaction) -> (hash: Digest)
    ensures
        hash@ == tx_hash(*tx),
{
    Digest(*tx.hash().slice())
}

/// Reads the `inputs` of an `sn_dbc::DbcTransaction` and copies out the bytes
/// of each input's `dbc_id`, in the transaction's order.
#[verifier::external_body]
fn inputs_of(tx: &sn_dbc::DbcTransaction) -> (ids: Vec<DbcId>)
    ensures
        id_views(ids@) == tx_input_ids(*tx),
{
    tx.inputs.iter().map(|input| DbcId(input.dbc_id().to_bytes())).collect()
}

/// Calls `sn_dbc::DbcTransaction::verify` with the given blinded amounts,
/// each decompressed to a curve point by
/// `curve25519_dalek_ng::ristretto::CompressedRistretto::decompress`, and says
/// whether it returned `Ok`. The answer is `false` where an amount is no point
/// of the curve. The check of the range proofs draws random numbers, so
/// nothing is claimed of the answer but that it is `false` for a transaction
/// without inputs, which `verify` refuses whatever else holds.
#[verifier::external_body]
fn verify_against(tx: &sn_dbc::DbcTransaction, amounts: &Vec<BlindedAmount>) -> (valid: bool)
    ensures
        tx_input_ids(*tx).len() == 0 ==> !valid,
{
    let points: Option<Vec<sn_dbc::BlindedAmount>> = amounts
        .iter()
        .map(|amount| curve25519_dalek_ng::ristretto::CompressedRistretto(amount.0).decompress())
        .collect();
    match points {
        Some(points) => tx.verify(&points).is_ok(),
        None => false,
    }
}

/// A transaction: a set of inputs and outputs that verifies as a unit given
/// the blinded amounts of its inputs. It is held as `sn_dbc` holds it,
/// together with its hash and the identifiers of its inputs.
#[derive(Debug, PartialEq, Eq)]
pub struct Transaction {
    hash: Digest,
    inputs: Vec<DbcId>,
    tx: sn_dbc::DbcTransaction,
}

impl Clone for Transaction {
    fn clone(&self) -> (copy: Transaction)
        ensures
            copy.spec_hash() == self.spec_hash(),
            copy.spec_inputs() == self.spec_inputs(),
            copy.spec_outside() == self.spec_outside(),
    {
        proof {
            use_type_invariant(self);
        }
        let mut inputs: Vec<DbcId> = Vec::new();
        let mut i: usize = 0;
        while i < self.inputs.len()
            invariant
                i <= self.inputs.len(),
                inputs@ == self.inputs@.take(i as int),
            decreases self.inputs.len() - i,
        {
            inputs.push(self.inputs[i]);
            assert(self.inputs@.take(i + 1) =~= self.inputs@.take(i as int).push(self.inputs@[i as int]));
            i += 1;
        }
        assert(self.inputs@.take(self.inputs.len() as int) =~= self.inputs@);
        Transaction { hash: self.hash, inputs, tx: self.tx.clone() }
    }
}

impl Transaction {
    /// The hash and the identifiers of the inputs are those of the
    /// transaction.
    #[verifier::type_invariant]
    spec fn wf(&self) -> bool {
        self.hash@ == tx_hash(self.tx) && id_views(self.inputs@) == tx_input_ids(self.tx)
    }

    /// The hash of the transaction.
    pub closed spec fn spec_hash(&self) -> Digest {
        self.hash
    }

    /// The identifiers that the transaction consumes, in its order.
    pub closed spec fn spec_inputs(&self) -> Seq<DbcId> {
        self.inputs@
    }

    /// The transaction as `sn_dbc` holds it.
    pub closed spec fn spec_outside(&self) -> sn_dbc::DbcTransaction {
        self.tx
    }

    /// The transaction together with its hash and the identifiers of its
    /// inputs, as `sn_dbc` gives them.
    pub fn new(tx: sn_dbc::DbcTransaction) -> (transaction: Transaction)
        ensures
            transaction.spec_outside() == tx,
            transaction.spec_hash()@ == tx_hash(tx),
            id_views(transaction.spec_inputs()) == tx_input_ids(tx),
    {
        let hash = hash_of(&tx);
        let inputs = inputs_of(&tx);
        Transaction { hash, inputs, tx }
    }

    /// The hash of the transaction.
    pub fn hash(&self) -> (hash: Digest)
        ensures
            hash == self.spec_hash(),
            hash@ == tx_hash(self.spec_outside()),
    {
        proof {
            use_type_invariant(self);
        }
        self.hash
    }

    /// The identifiers that the transaction consumes, in its order.
    pub fn inputs(&self) -> (inputs: &Vec<DbcId>)
        ensures
            inputs@ == self.spec_inputs(),
            id_views(inputs@) == tx_input_ids(self.spec_outside()),
    {
        proof {
            use_type_invariant(self);
        }
        &self.inputs
    }

    /// The transaction as `sn_dbc` holds it.
    pub fn outside(&self) -> (tx: &sn_dbc::DbcTransaction)
        ensures
            *tx == self.spec_outside(),
    {
        &self.tx
    }

    /// Whether the transaction verifies against the blinded amounts of its
    /// inputs. The cryptography decides, and it draws random numbers to check
    /// the range proofs: all that is known of the answer is that a
    /// transaction without inputs never verifies.
    pub fn verify(&self, blinded_amounts: &Vec<BlindedAmount>) -> (valid: bool)
        ensures
            self.spec_inputs().len() == 0 ==> !valid,
    {
        proof {
            use_type_invariant(self);
        }
        verify_against(&self.tx, blinded_amounts)
    }
}

} // verus!
