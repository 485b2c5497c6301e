//! The spend validator: what a node checks before it records a spend.
//!
//! The source transaction has to hash to what the spend names as its source.
//! Every input of the source transaction has to be recorded as spent, by the
//! close group of its own address, into that very transaction. And the
//! transaction has to verify against the blinded amounts of those parents.
//!
//! The parents live with other close groups, so the node asks for them one
//! by one. The validator says which to ask for next and takes in each
//! answer.

use crate::address::DbcAddress;
use crate::dbc::{dbc_address, spec_dbc_address, BlindedAmount, Digest, SignedSpend, Transaction};
use crate::error::{Error, ProtocolError};
use crate::octets::{lemma_lex_asymmetric, lemma_lex_irreflexive, lemma_lex_total, lemma_lex_transitive};
use crate::scan::{first_index, lemma_first_index};
use vstd::prelude::*;

verus! {

/// What the close group of a parent's address gave when asked for the
/// parent.
pub type Fetched = Result<SignedSpend, Error>;

/// Whether the spends are in ascending order, no two in one place.
pub open spec fn ordered(parents: Seq<SignedSpend>) -> bool {
    forall|i: int, j: int|
        #![trigger parents[i], parents[j]]
        0 <= i < j < parents.len() ==> parents[i].precedes(&parents[j])
}

/// Whether one of the spends stands in the place of `parent`.
pub open spec fn holds_place(parents: Seq<SignedSpend>, parent: SignedSpend) -> bool {
    exists|i: int| 0 <= i < parents.len() && (#[trigger] parents[i]).same_place(&parent)
}

/// The number of spends at the front that come before `parent`.
pub open spec fn rank(parents: Seq<SignedSpend>, parent: SignedSpend) -> int {
    match first_index(parents, |other: SignedSpend| !other.precedes(&parent)) {
        Some(i) => i,
        None => parents.len() as int,
    }
}

/// The ordered set of spends with `parent` put in: where a spend stands in
/// its place already, that one stays.
pub open spec fn with_parent(parents: Seq<SignedSpend>, parent: SignedSpend) -> Seq<SignedSpend> {
    if holds_place(parents, parent) {
        parents
    } else {
        parents.insert(rank(parents, parent), parent)
    }
}

/// The ordered set of the spends of a list, put in one after the other.
pub open spec fn ordered_set(spends: Seq<SignedSpend>) -> Seq<SignedSpend>
    decreases spends.len(),
{
    if spends.len() == 0 {
        Seq::empty()
    } else {
        with_parent(ordered_set(spends.drop_last()), spends.last())
    }
}

/// The blinded amounts of the spends, in their order.
pub open spec fn amounts_of(parents: Seq<SignedSpend>) -> Seq<BlindedAmount> {
    Seq::new(parents.len(), |i: int| parents[i].blinded_amount)
}

/// Of two spends in different places, one comes before the other.
pub proof fn lemma_places_total(a: SignedSpend, b: SignedSpend)
    ensures
        a.precedes(&b) || b.precedes(&a) || a.same_place(&b),
        a.precedes(&b) ==> !b.precedes(&a) && !a.same_place(&b),
{
    if a.dbc_id@ != b.dbc_id@ {
        lemma_lex_total(a.dbc_id@, b.dbc_id@);
    } else {
        assert(a.dbc_id.0 =~= b.dbc_id.0);
        if a.derived_key_sig@ != b.derived_key_sig@ {
            lemma_lex_total(a.derived_key_sig@, b.derived_key_sig@);
        } else {
            assert(a.derived_key_sig.0 =~= b.derived_key_sig.0);
        }
    }
    if a.precedes(&b) {
        lemma_lex_irreflexive(a.dbc_id@);
        lemma_lex_irreflexive(a.derived_key_sig@);
        if crate::octets::lex_less(a.dbc_id@, b.dbc_id@) {
            lemma_lex_asymmetric(a.dbc_id@, b.dbc_id@);
        } else {
            lemma_lex_asymmetric(a.derived_key_sig@, b.derived_key_sig@);
        }
    }
}

/// The order of spends is transitive.
pub proof fn lemma_precedes_transitive(a: SignedSpend, b: SignedSpend, c: SignedSpend)
    requires
        a.precedes(&b),
        b.precedes(&c),
    ensures
        a.precedes(&c),
{
    if crate::octets::lex_less(a.dbc_id@, b.dbc_id@) && crate::octets::lex_less(b.dbc_id@, c.dbc_id@) {
        lemma_lex_transitive(a.dbc_id@, b.dbc_id@, c.dbc_id@);
    } else if a.dbc_id == b.dbc_id && b.dbc_id == c.dbc_id {
        lemma_lex_transitive(a.derived_key_sig@, b.derived_key_sig@, c.derived_key_sig@);
    }
}

/// Puts a spend into an ordered set of spends, as a sorted set would: in
/// its place by identifier and signature, unless a spend stands there
/// already.
pub fn insert_parent(parents: &mut Vec<SignedSpend>, parent: SignedSpend)
    requires
        ordered(old(parents)@),
    ensures
        ordered(final(parents)@),
        final(parents)@ == with_parent(old(parents)@, parent),
{
    let mut i: usize = 0;
    while i < parents.len() && parents[i].comes_before(&parent)
        invariant
            i <= parents.len(),
            *parents == *old(parents),
            forall|j: int| 0 <= j < i ==> (#[trigger] parents@[j]).precedes(&parent),
        decreases parents.len() - i,
    {
        i += 1;
    }
    let ghost before = parents@;
    proof {
        lemma_first_index(before, |other: SignedSpend| !other.precedes(&parent));
        assert forall|j: int| 0 <= j < i implies !(#[trigger] before[j]).same_place(&parent) by {
            lemma_places_total(before[j], parent);
        }
    }
    if i < parents.len() && parents[i].dbc_id.equals(&parent.dbc_id) && parents[i].derived_key_sig.equals(
        &parent.derived_key_sig,
    ) {
        return ;
    }
    proof {
        if i < before.len() {
            lemma_places_total(before[i as int], parent);
        }
        assert forall|j: int| i <= j < before.len() implies parent.precedes(&#[trigger] before[j]) by {
            if j > i {
                lemma_precedes_transitive(parent, before[i as int], before[j]);
            }
        }
        assert forall|j: int| 0 <= j < before.len() implies !(#[trigger] before[j]).same_place(&parent) by {
            if j >= i {
                lemma_places_total(parent, before[j]);
            }
        }
    }
    parents.insert(i, parent);
    proof {
        assert forall|a: int, b: int|
            #![trigger parents@[a], parents@[b]]
            0 <= a < b < parents@.len() implies parents@[a].precedes(&parents@[b]) by {
            if a == i {
                assert(parents@[b] == before[b - 1]);
            } else if b == i {
                assert(parents@[a] == before[a]);
            } else if a < i && b > i {
                assert(parents@[a] == before[a]);
            } else if a < i {
                assert(parents@[a] == before[a]);
            } else {
                assert(parents@[a] == before[a - 1]);
            }
        }
    }
}

/// The blinded amounts of the spends, in their order.
pub fn blinded_amounts(parents: &Vec<SignedSpend>) -> (amounts: Vec<BlindedAmount>)
    ensures
        amounts@ == amounts_of(parents@),
{
    let mut amounts: Vec<BlindedAmount> = Vec::new();
    let mut i: usize = 0;
    while i < parents.len()
        invariant
            i <= parents.len(),
            amounts@.len() == i,
            forall|j: int| 0 <= j < i ==> amounts@[j] == parents@[j].blinded_amount,
        decreases parents.len() - i,
    {
        amounts.push(parents[i].blinded_amount);
        i += 1;
    }
    amounts
}

/// Whether what was fetched is a parent that was spent into the
/// transaction with the hash `src`.
pub open spec fn is_parent_of(src: Digest, fetched: Fetched) -> bool {
    fetched matches Ok(parent) && parent.dst_tx_hash == src
}

/// The error that a fetch that gave no fitting parent ends the validation
/// with. A rejection goes back to the client; any other failure is the
/// node's own.
pub open spec fn fetch_failure(src: Digest, fetched: Fetched) -> Verdict {
    match fetched {
        Ok(parent) => Verdict::Rejected(
            ProtocolError::SpendSrcTxHashParentTxHashMismatch {
                signed_src_tx_hash: src,
                parent_dst_tx_hash: parent.dst_tx_hash,
            },
        ),
        Err(Error::Protocol(error)) => Verdict::Rejected(error),
        Err(error) => Verdict::Failed(error),
    }
}

/// Where a validation stands.
#[derive(Clone, Copy, Debug, PartialEq, Eq)]
pub enum Verdict {
    /// The parent of the input with this index is to be fetched.
    Awaiting(usize),
    /// The spend is valid and may be recorded.
    Accepted,
    /// The spend is refused, and the client is told why.
    Rejected(ProtocolError),
    /// The validation could not be carried out; the client gets no answer.
    Failed(Error),
}

/// Where the validation of a spend stands, given the hash of the source
/// transaction that came with it, the number of that transaction's inputs,
/// what the fetches of the parents gave so far, in the order of the inputs,
/// and whether the transaction verified against the parents' amounts.
pub open spec fn validation_verdict(
    signed_spend: SignedSpend,
    provided_src_tx_hash: Digest,
    inputs: nat,
    fetched: Seq<Fetched>,
    verified: bool,
) -> Verdict {
    let src = signed_spend.src_tx_hash;
    if provided_src_tx_hash != src {
        Verdict::Rejected(
            ProtocolError::SignedSrcTxHashDoesNotMatchProvidedSrcTxHash {
                signed_src_tx_hash: src,
                provided_src_tx_hash,
            },
        )
    } else {
        match first_index(fetched, |f: Fetched| !is_parent_of(src, f)) {
            Some(i) => fetch_failure(src, fetched[i]),
            None => if fetched.len() < inputs {
                Verdict::Awaiting(fetched.len() as usize)
            } else if verified {
                Verdict::Accepted
            } else {
                Verdict::Rejected(
                    ProtocolError::InvalidSourceTxProvided { signed_src_tx_hash: src, provided_src_tx_hash },
                )
            },
        }
    }
}

/// A spend is accepted exactly if the source transaction hashes to the
/// spend's source hash, the parent of every input was fetched and was spent
/// into that transaction, and the transaction verified against the parents'
/// blinded amounts.
pub proof fn lemma_accepted_iff(
    signed_spend: SignedSpend,
    provided_src_tx_hash: Digest,
    inputs: nat,
    fetched: Seq<Fetched>,
    verified: bool,
)
    ensures
        validation_verdict(signed_spend, provided_src_tx_hash, inputs, fetched, verified) == Verdict::Accepted <==> {
            &&& provided_src_tx_hash == signed_spend.src_tx_hash
            &&& fetched.len() >= inputs
            &&& forall|i: int|
                0 <= i < fetched.len() ==> is_parent_of(signed_spend.src_tx_hash, #[trigger] fetched[i])
            &&& verified
        },
{
    lemma_first_index(fetched, |f: Fetched| !is_parent_of(signed_spend.src_tx_hash, f));
}

/// What one more fetch makes of a validation that waits: a parent that does
/// not fit ends it with the failure of that fetch; a parent that fits lets
/// it wait for the next input, or, after the last input, accepts the spend
/// if the transaction verified and refuses it if not.
pub proof fn lemma_verdict_after_fetch(pending: PendingValidation, fetched: Fetched, verified: bool)
    requires
        pending.sound(),
    ensures
        validation_verdict(
            pending.spec_signed_spend(),
            pending.spec_source_tx().spec_hash(),
            pending.spec_source_tx().spec_inputs().len(),
            pending.spec_trail().push(fetched),
            verified,
        ) == if !is_parent_of(pending.spec_signed_spend().src_tx_hash, fetched) {
            fetch_failure(pending.spec_signed_spend().src_tx_hash, fetched)
        } else if pending.spec_next() + 1 < pending.spec_source_tx().spec_inputs().len() {
            Verdict::Awaiting((pending.spec_next() + 1) as usize)
        } else if verified {
            Verdict::Accepted
        } else {
            Verdict::Rejected(
                ProtocolError::InvalidSourceTxProvided {
                    signed_src_tx_hash: pending.spec_signed_spend().src_tx_hash,
                    provided_src_tx_hash: pending.spec_source_tx().spec_hash(),
                },
            )
        },
{
    let src = pending.spec_signed_spend().src_tx_hash;
    let trail = pending.spec_trail();
    lemma_first_index(trail, |f: Fetched| !is_parent_of(src, f));
    lemma_first_index(trail.push(fetched), |f: Fetched| !is_parent_of(src, f));
}

/// The spends that the fetches gave.
pub open spec fn fetched_spends(fetched: Seq<Fetched>) -> Seq<SignedSpend> {
    Seq::new(fetched.len(), |i: int| fetched[i]->Ok_0)
}

/// A validation that waits for the parent of an input of the source
/// transaction.
pub struct PendingValidation {
    signed_spend: SignedSpend,
    source_tx: Transaction,
    parents: Vec<SignedSpend>,
    next: usize,
    trail: Ghost<Seq<Fetched>>,
}

/// The next step of a validation.
pub enum Validation {
    /// The spend recorded at `address` is to be fetched from its close
    /// group, and handed to `pending`.
    AwaitingParent {
        /// The validation, which goes on when the parent is there.
        pending: PendingValidation,
        /// The address of the parent.
        address: DbcAddress,
    },
    /// The spend is valid: it may be recorded.
    Accepted {
        /// The spend.
        signed_spend: SignedSpend,
        /// The transaction in which the spent identifier was created.
        source_tx: Transaction,
    },
    /// The spend is refused, and the client is told why.
    Rejected(ProtocolError),
    /// The validation could not be carried out; the client gets no answer.
    Failed(Error),
}

impl Validation {
    /// Where the validation waits for a parent at its start, it waits for
    /// the parent of the first input, at that input's address, and holds the
    /// spend and the transaction that it was started with and no parent yet.
    pub open spec fn awaits_first(&self, signed_spend: SignedSpend, source_tx: Transaction) -> bool {
        self matches Validation::AwaitingParent { pending, address } ==> {
            &&& pending.sound()
            &&& pending.spec_signed_spend() == signed_spend
            &&& pending.spec_source_tx() == source_tx
            &&& pending.spec_trail() == Seq::<Fetched>::empty()
            &&& pending.spec_parents() == Seq::<SignedSpend>::empty()
            &&& pending.spec_next() == 0
            &&& 0 < source_tx.spec_inputs().len()
            &&& address.0@ == spec_dbc_address(source_tx.spec_inputs()[0])
        }
    }

    /// Where the validation waits for a parent after one was fetched, it
    /// waits for the parent of the next input, at that input's address, and
    /// holds the same spend and transaction, with what was fetched taken in.
    pub open spec fn awaits_after(&self, before: PendingValidation, fetched: Fetched) -> bool {
        self matches Validation::AwaitingParent { pending, address } ==> {
            &&& pending.sound()
            &&& pending.spec_signed_spend() == before.spec_signed_spend()
            &&& pending.spec_source_tx() == before.spec_source_tx()
            &&& pending.spec_trail() == before.spec_trail().push(fetched)
            &&& pending.spec_parents() == with_parent(before.spec_parents(), fetched->Ok_0)
            &&& pending.spec_next() == before.spec_next() + 1
            &&& pending.spec_next() < pending.spec_source_tx().spec_inputs().len()
            &&& address.0@ == spec_dbc_address(pending.spec_source_tx().spec_inputs()[pending.spec_next() as int])
        }
    }

    /// Where the validation stands.
    pub open spec fn verdict(&self) -> Verdict {
        match self {
            Validation::AwaitingParent { pending, .. } => Verdict::Awaiting(pending.spec_next()),
            Validation::Accepted { .. } => Verdict::Accepted,
            Validation::Rejected(error) => Verdict::Rejected(*error),
            Validation::Failed(error) => Verdict::Failed(*error),
        }
    }
}

impl PendingValidation {
    /// What holds of every validation that waits: the source transaction
    /// hashes to the spend's source hash; a parent is missing; what was
    /// fetched so far are parents that were spent into the source
    /// transaction, one for each input before the awaited one, and they are
    /// kept as an ordered set.
    #[verifier::type_invariant]
    pub open spec fn sound(&self) -> bool {
        &&& self.spec_source_tx().spec_hash() == self.spec_signed_spend().src_tx_hash
        &&& self.spec_next() < self.spec_source_tx().spec_inputs().len()
        &&& self.spec_trail().len() == self.spec_next()
        &&& forall|i: int|
            0 <= i < self.spec_trail().len() ==> is_parent_of(
                self.spec_signed_spend().src_tx_hash,
                #[trigger] self.spec_trail()[i],
            )
        &&& ordered(self.spec_parents())
        &&& self.spec_parents() == ordered_set(fetched_spends(self.spec_trail()))
    }

    /// The spend that is validated.
    pub closed spec fn spec_signed_spend(&self) -> SignedSpend {
        self.signed_spend
    }

    /// The source transaction that came with the spend.
    pub closed spec fn spec_source_tx(&self) -> Transaction {
        self.source_tx
    }

    /// The index of the input whose parent is waited for.
    pub closed spec fn spec_next(&self) -> usize {
        self.next
    }

    /// What the fetches gave so far, in the order of the inputs.
    pub closed spec fn spec_trail(&self) -> Seq<Fetched> {
        self.trail@
    }

    /// The parents fetched so far, as the ordered set whose blinded amounts
    /// the transaction is verified against.
    pub closed spec fn spec_parents(&self) -> Seq<SignedSpend> {
        self.parents@
    }

    /// The address of the parent that is waited for.
    pub fn awaited(&self) -> (address: DbcAddress)
        ensures
            self.sound(),
            self.spec_next() < self.spec_source_tx().spec_inputs().len(),
            address.0@ == spec_dbc_address(self.spec_source_tx().spec_inputs()[self.spec_next() as int]),
    {
        proof {
            use_type_invariant(self);
        }
        dbc_address(&self.source_tx.inputs()[self.next])
    }

    /// Takes in what the close group of the awaited parent gave, and says
    /// how the validation goes on. A parent that was spent into another
    /// transaction, or a rejection by its close group, refuses the spend; any
    /// other failure of the fetch fails the validation. After the last
    /// parent the transaction is verified against the blinded amounts of the
    /// parents, taken in the order of the parents' identifiers.
    pub fn parent_fetched(self, fetched: Fetched) -> (step: Validation)
        ensures
            exists|verified: bool|
                step.verdict() == #[trigger] validation_verdict(
                    self.spec_signed_spend(),
                    self.spec_source_tx().spec_hash(),
                    self.spec_source_tx().spec_inputs().len(),
                    self.spec_trail().push(fetched),
                    verified,
                ),
            step.awaits_after(self, fetched),
            step matches Validation::Accepted { signed_spend, source_tx } ==> signed_spend
                == self.spec_signed_spend() && source_tx == self.spec_source_tx(),
    {
        proof {
            use_type_invariant(&self);
        }
        let ghost trail = self.spec_trail();
        let ghost extended = trail.push(fetched);
        let ghost stopped = validation_verdict(
            self.spec_signed_spend(),
            self.spec_source_tx().spec_hash(),
            self.spec_source_tx().spec_inputs().len(),
            extended,
            true,
        );
        let inputs = self.source_tx.inputs().len();
        let signed_spend = self.signed_spend;
        let index = self.next;
        let source_tx = self.source_tx;
        let mut parents = self.parents;
        let src = signed_spend.src_tx_hash;
        proof {
            lemma_first_index(extended, |f: Fetched| !is_parent_of(src, f));
            assert forall|j: int| 0 <= j < trail.len() implies is_parent_of(src, #[trigger] extended[j]) by {
                assert(extended[j] == trail[j]);
            }
        }
        let parent = match fetched {
            Err(Error::Protocol(error)) => {
                let refused = Validation::Rejected(error);
                assert(refused.verdict() == stopped);
                return refused;
            },
            Err(error) => {
                let failed = Validation::Failed(error);
                assert(failed.verdict() == stopped);
                return failed;
            },
            Ok(parent) => parent,
        };
        if !parent.dst_tx_hash.equals(&src) {
            let refused = Validation::Rejected(
                ProtocolError::SpendSrcTxHashParentTxHashMismatch {
                    signed_src_tx_hash: src,
                    parent_dst_tx_hash: parent.dst_tx_hash,
                },
            );
            assert(refused.verdict() == stopped);
            return refused;
        }
        insert_parent(&mut parents, parent);
        proof {
            assert(fetched_spends(extended).drop_last() =~= fetched_spends(trail));
        }
        let following = index + 1;
        if following < inputs {
            let address = dbc_address(&source_tx.inputs()[following]);
            let pending = PendingValidation {
                signed_spend,
                source_tx,
                parents,
                next: following,
                trail: Ghost(extended),
            };
            let awaiting = Validation::AwaitingParent { pending, address };
            assert(awaiting.verdict() == stopped);
            awaiting
        } else {
            let amounts = blinded_amounts(&parents);
            let verified = source_tx.verify(&amounts);
            let concluded = conclude(signed_spend, source_tx, verified);
            assert(concluded.verdict() == validation_verdict(
                signed_spend,
                source_tx.spec_hash(),
                source_tx.spec_inputs().len(),
                extended,
                verified,
            ));
            concluded
        }
    }
}

/// The end of a validation whose parents all fit: the spend is accepted if
/// the source transaction verified against the parents' blinded amounts, and
/// refused with `InvalidSourceTxProvided` if it did not.
pub fn conclude(signed_spend: SignedSpend, source_tx: Transaction, verified: bool) -> (end: Validation)
    ensures
        verified ==> end == (Validation::Accepted { signed_spend, source_tx }),
        !verified ==> end == Validation::Rejected(
            ProtocolError::InvalidSourceTxProvided {
                signed_src_tx_hash: signed_spend.src_tx_hash,
                provided_src_tx_hash: source_tx.spec_hash(),
            },
        ),
{
    if verified {
        Validation::Accepted { signed_spend, source_tx }
    } else {
        Validation::Rejected(
            ProtocolError::InvalidSourceTxProvided {
                signed_src_tx_hash: signed_spend.src_tx_hash,
                provided_src_tx_hash: source_tx.hash(),
            },
        )
    }
}

/// Starts the validation of a spend that came with its source transaction.
/// A transaction whose hash is not the one that the spend was signed over
/// refuses the spend at once; else the parent of the first input is to be
/// fetched. A transaction without inputs is verified at once, against no
/// amounts, and never verifies: the spend is refused.
pub fn validate_spend(signed_spend: SignedSpend, source_tx: Transaction) -> (next: Validation)
    ensures
        exists|verified: bool|
            (source_tx.spec_inputs().len() == 0 ==> !verified) && next.verdict() == #[trigger] validation_verdict(
                signed_spend,
                source_tx.spec_hash(),
                source_tx.spec_inputs().len(),
                Seq::empty(),
                verified,
            ),
        source_tx.spec_hash() == signed_spend.src_tx_hash && source_tx.spec_inputs().len() == 0 ==> next
            == Validation::Rejected(
            ProtocolError::InvalidSourceTxProvided {
                signed_src_tx_hash: signed_spend.src_tx_hash,
                provided_src_tx_hash: source_tx.spec_hash(),
            },
        ),
        source_tx.spec_hash() != signed_spend.src_tx_hash ==> next == Validation::Rejected(
            ProtocolError::SignedSrcTxHashDoesNotMatchProvidedSrcTxHash {
                signed_src_tx_hash: signed_spend.src_tx_hash,
                provided_src_tx_hash: source_tx.spec_hash(),
            },
        ),
        next.awaits_first(signed_spend, source_tx),
        next matches Validation::Accepted { signed_spend: kept, source_tx: tx } ==> kept == signed_spend && tx
            == source_tx,
{
    let provided_src_tx_hash = source_tx.hash();
    let signed_src_tx_hash = signed_spend.src_tx_hash();
    proof {
        lemma_first_index(Seq::<Fetched>::empty(), |f: Fetched| !is_parent_of(signed_src_tx_hash, f));
    }
    if !provided_src_tx_hash.equals(&signed_src_tx_hash) {
        assert(validation_verdict(
            signed_spend,
            source_tx.spec_hash(),
            source_tx.spec_inputs().len(),
            Seq::empty(),
            false,
        ) is Rejected);
        return Validation::Rejected(
            ProtocolError::SignedSrcTxHashDoesNotMatchProvidedSrcTxHash { signed_src_tx_hash, provided_src_tx_hash },
        );
    }
    if source_tx.inputs().len() > 0 {
        let address = dbc_address(&source_tx.inputs()[0]);
        proof {
            assert(fetched_spends(Seq::<Fetched>::empty()) =~= Seq::<SignedSpend>::empty());
        }
        let pending = PendingValidation {
            signed_spend,
            source_tx,
            parents: Vec::new(),
            next: 0,
            trail: Ghost(Seq::empty()),
        };
        Validation::AwaitingParent { pending, address }
    } else {
        let amounts: Vec<BlindedAmount> = Vec::new();
        let verified = source_tx.verify(&amounts);
        let next = conclude(signed_spend, source_tx, verified);
        assert(!verified && next.verdict() == validation_verdict(
            signed_spend,
            source_tx.spec_hash(),
            source_tx.spec_inputs().len(),
            Seq::empty(),
            verified,
        ));
        next
    }
}

} // verus!
