use sn_core::dbc::{dbc_address, BlindedAmount, DbcId, Digest, SignedSpend, Transaction};
use sn_core::error::{Error, ProtocolError, TransportError};
use sn_core::keys::Signature;
use sn_core::validation::{blinded_amounts, conclude, insert_parent, validate_spend, Validation};
use sn_dbc::rand::rngs::StdRng;
use sn_dbc::rand::SeedableRng;

struct Made {
    tx: sn_dbc::DbcTransaction,
    parents: Vec<SignedSpend>,
}

fn make(amounts: &[u64], ascending: bool, seed: u8) -> Made {
    let mut rng = StdRng::from_seed([seed; 32]);
    let gens = sn_dbc::PedersenGens::default();
    let mut inputs: Vec<sn_dbc::RevealedInput> = amounts
        .iter()
        .map(|amount| {
            let key = sn_dbc::MainKey::random_from_rng(&mut rng).random_derived_key(&mut rng);
            sn_dbc::RevealedInput::new(key, sn_dbc::RevealedAmount::from_amount(*amount, &mut rng))
        })
        .collect();
    inputs.sort_by_key(|input| input.dbc_id().to_bytes());
    if !ascending {
        inputs.reverse();
    }
    let receiver = sn_dbc::MainKey::random_from_rng(&mut rng).random_derived_key(&mut rng).dbc_id();
    let revealed = sn_dbc::RevealedTx {
        inputs: inputs
            .iter()
            .map(|input| sn_dbc::InputHistory {
                input: input.clone(),
                input_src_tx: sn_dbc::DbcTransaction { inputs: vec![], outputs: vec![] },
            })
            .collect(),
        outputs: vec![sn_dbc::Output::new(receiver, amounts.iter().sum())],
    };
    let (tx, _) = revealed.sign(&mut rng).unwrap();
    let hash = Digest(*tx.hash().slice());
    let parents = inputs
        .iter()
        .map(|input| SignedSpend {
            dbc_id: DbcId(input.dbc_id().to_bytes()),
            src_tx_hash: Digest([9; 32]),
            dst_tx_hash: hash,
            reason: Digest([0; 32]),
            blinded_amount: BlindedAmount(input.blinded_amount(&gens).compress().to_bytes()),
            derived_key_sig: Signature([1; 96]),
        })
        .collect();
    Made { tx, parents }
}

fn spend_of(tx: &sn_dbc::DbcTransaction) -> SignedSpend {
    SignedSpend {
        dbc_id: DbcId([5; 48]),
        src_tx_hash: Digest(*tx.hash().slice()),
        dst_tx_hash: Digest([6; 32]),
        reason: Digest([0; 32]),
        blinded_amount: BlindedAmount([0; 32]),
        derived_key_sig: Signature([2; 96]),
    }
}

fn invalid(spend: &SignedSpend, tx: &Transaction) -> ProtocolError {
    ProtocolError::InvalidSourceTxProvided {
        signed_src_tx_hash: spend.src_tx_hash,
        provided_src_tx_hash: tx.hash(),
    }
}

fn run(spend: SignedSpend, tx: Transaction, parents: Vec<Result<SignedSpend, Error>>) -> Validation {
    let mut step = validate_spend(spend, tx);
    for parent in parents {
        step = match step {
            Validation::AwaitingParent { pending, .. } => pending.parent_fetched(parent),
            other => return other,
        };
    }
    step
}

fn accepted(step: &Validation) -> bool {
    matches!(step, Validation::Accepted { .. })
}

fn rejection(step: Validation) -> ProtocolError {
    match step {
        Validation::Rejected(error) => error,
        Validation::Accepted { .. } => panic!("accepted"),
        Validation::AwaitingParent { .. } => panic!("awaiting"),
        Validation::Failed(error) => panic!("{error:?}"),
    }
}

#[test]
fn a_transaction_is_held_with_its_hash_and_inputs() {
    let made = make(&[10, 20], true, 1);
    let tx = Transaction::new(made.tx.clone());
    assert_eq!(tx.hash(), Digest(*made.tx.hash().slice()));
    assert_eq!(tx.inputs(), &made.parents.iter().map(|parent| parent.dbc_id).collect::<Vec<_>>());
    assert_eq!(tx.outside(), &made.tx);
    let empty = Transaction::new(sn_dbc::DbcTransaction { inputs: vec![], outputs: vec![] });
    assert!(empty.inputs().is_empty());
    assert_ne!(empty.hash(), tx.hash());
}

#[test]
fn a_transaction_verifies_against_the_amounts_of_its_inputs() {
    let made = make(&[10, 20], true, 1);
    let tx = Transaction::new(made.tx.clone());
    let amounts: Vec<BlindedAmount> = made.parents.iter().map(|parent| parent.blinded_amount).collect();
    assert!(tx.verify(&amounts));
    let mut swapped = amounts.clone();
    swapped.reverse();
    assert!(!tx.verify(&swapped));
    assert!(!tx.verify(&vec![BlindedAmount([0xff; 32]), amounts[1]]));
    assert!(!Transaction::new(sn_dbc::DbcTransaction { inputs: vec![], outputs: vec![] }).verify(&vec![]));
}

#[test]
fn a_source_transaction_with_another_hash_is_refused_at_once() {
    let made = make(&[10], true, 1);
    let tx = Transaction::new(made.tx.clone());
    let mut spend = spend_of(&made.tx);
    spend.src_tx_hash = Digest([1; 32]);
    let step = validate_spend(spend, tx.clone());
    assert_eq!(
        rejection(step),
        ProtocolError::SignedSrcTxHashDoesNotMatchProvidedSrcTxHash {
            signed_src_tx_hash: Digest([1; 32]),
            provided_src_tx_hash: tx.hash(),
        }
    );
}

#[test]
fn a_spend_with_all_its_parents_is_accepted() {
    let made = make(&[10], true, 1);
    let spend = spend_of(&made.tx);
    let tx = Transaction::new(made.tx.clone());
    match validate_spend(spend, tx.clone()) {
        Validation::AwaitingParent { pending, address } => {
            assert_eq!(address, dbc_address(&made.parents[0].dbc_id));
            assert_eq!(pending.awaited(), address);
            match pending.parent_fetched(Ok(made.parents[0])) {
                Validation::Accepted { signed_spend, source_tx } => {
                    assert_eq!(signed_spend, spend);
                    assert_eq!(source_tx, tx);
                }
                _ => panic!("not accepted"),
            }
        }
        _ => panic!("no parent awaited"),
    }
}

#[test]
fn the_parents_are_asked_for_in_the_order_of_the_inputs() {
    let made = make(&[1, 2, 3], true, 2);
    let spend = spend_of(&made.tx);
    let tx = Transaction::new(made.tx.clone());
    let mut step = validate_spend(spend, tx);
    for parent in &made.parents {
        step = match step {
            Validation::AwaitingParent { pending, address } => {
                assert_eq!(address, parent.address());
                pending.parent_fetched(Ok(*parent))
            }
            _ => panic!("no parent awaited"),
        };
    }
    assert!(accepted(&step));
}

#[test]
fn the_amounts_are_taken_in_the_order_of_the_identifiers() {
    let made = make(&[1, 2, 3], false, 2);
    let spend = spend_of(&made.tx);
    let tx = Transaction::new(made.tx.clone());
    let parents = made.parents.iter().map(|parent| Ok(*parent)).collect();
    assert_eq!(rejection(run(spend, tx.clone(), parents)), invalid(&spend, &tx));
}

#[test]
fn a_parent_that_was_spent_elsewhere_refuses_the_spend() {
    let made = make(&[10, 20], true, 3);
    let spend = spend_of(&made.tx);
    let tx = Transaction::new(made.tx.clone());
    let mut elsewhere = made.parents[1];
    elsewhere.dst_tx_hash = Digest([4; 32]);
    let step = run(spend, tx.clone(), vec![Ok(made.parents[0]), Ok(elsewhere)]);
    assert_eq!(
        rejection(step),
        ProtocolError::SpendSrcTxHashParentTxHashMismatch {
            signed_src_tx_hash: spend.src_tx_hash,
            parent_dst_tx_hash: Digest([4; 32]),
        }
    );
    let mut first = made.parents[0];
    first.dst_tx_hash = Digest([3; 32]);
    let step = run(spend, tx, vec![Ok(first), Ok(made.parents[1])]);
    assert_eq!(
        rejection(step),
        ProtocolError::SpendSrcTxHashParentTxHashMismatch {
            signed_src_tx_hash: spend.src_tx_hash,
            parent_dst_tx_hash: Digest([3; 32]),
        }
    );
}

#[test]
fn a_parent_that_its_close_group_does_not_hold_refuses_the_spend() {
    let made = make(&[10, 20], true, 3);
    let spend = spend_of(&made.tx);
    let tx = Transaction::new(made.tx.clone());
    let missing = ProtocolError::SpendNotFound(made.parents[1].address());
    let step = run(spend, tx.clone(), vec![Ok(made.parents[0]), Err(Error::Protocol(missing))]);
    assert_eq!(rejection(step), missing);
    let step = run(spend, tx.clone(), vec![Err(Error::Protocol(ProtocolError::UnexpectedResponses))]);
    assert_eq!(rejection(step), ProtocolError::UnexpectedResponses);
    for failure in [Error::ResponseTimeout, Error::Network(TransportError::PeerUnreachable), Error::UnexpectedResponses] {
        match run(spend, tx.clone(), vec![Ok(made.parents[0]), Err(failure)]) {
            Validation::Failed(error) => assert_eq!(error, failure),
            _ => panic!("not failed"),
        }
    }
}

#[test]
fn a_transaction_that_does_not_verify_refuses_the_spend() {
    let made = make(&[10, 20], true, 3);
    let spend = spend_of(&made.tx);
    let tx = Transaction::new(made.tx.clone());
    let mut wrong = made.parents[1];
    wrong.blinded_amount = made.parents[0].blinded_amount;
    let step = run(spend, tx.clone(), vec![Ok(made.parents[0]), Ok(wrong)]);
    assert_eq!(rejection(step), invalid(&spend, &tx));

    let mut no_point = made.parents[1];
    no_point.blinded_amount = BlindedAmount([0xff; 32]);
    let step = run(spend, tx.clone(), vec![Ok(made.parents[0]), Ok(no_point)]);
    assert_eq!(rejection(step), invalid(&spend, &tx));

    let step = run(spend, tx.clone(), vec![Ok(made.parents[1]), Ok(made.parents[1])]);
    assert_eq!(rejection(step), invalid(&spend, &tx));
}

#[test]
fn a_parent_that_comes_twice_is_counted_once() {
    let made = make(&[10, 20], true, 3);
    let spend = spend_of(&made.tx);
    let tx = Transaction::new(made.tx.clone());
    let step = run(spend, tx.clone(), vec![Ok(made.parents[0]), Ok(made.parents[0])]);
    assert!(accepted(&step));
    assert!(tx.verify(&vec![made.parents[0].blinded_amount]));
}

#[test]
fn a_transaction_without_inputs_is_verified_at_once() {
    let empty = sn_dbc::DbcTransaction { inputs: vec![], outputs: vec![] };
    let spend = spend_of(&empty);
    let tx = Transaction::new(empty);
    assert_eq!(rejection(validate_spend(spend, tx.clone())), invalid(&spend, &tx));
}

#[test]
fn the_end_of_a_validation() {
    let made = make(&[10], true, 1);
    let spend = spend_of(&made.tx);
    let tx = Transaction::new(made.tx.clone());
    assert!(accepted(&conclude(spend, tx.clone(), true)));
    assert_eq!(rejection(conclude(spend, tx.clone(), false)), invalid(&spend, &tx));
}

#[test]
fn parents_are_kept_as_an_ordered_set() {
    fn parent(id: u8, sig: u8, amount: u8) -> SignedSpend {
        SignedSpend {
            dbc_id: DbcId([id; 48]),
            src_tx_hash: Digest([0; 32]),
            dst_tx_hash: Digest([0; 32]),
            reason: Digest([0; 32]),
            blinded_amount: BlindedAmount([amount; 32]),
            derived_key_sig: Signature([sig; 96]),
        }
    }
    let mut parents = Vec::new();
    for (id, sig, amount) in [(5, 1, 50), (1, 1, 10), (9, 1, 90), (5, 0, 49), (5, 1, 51), (1, 2, 11), (9, 1, 91)] {
        insert_parent(&mut parents, parent(id, sig, amount));
    }
    assert_eq!(
        parents,
        vec![parent(1, 1, 10), parent(1, 2, 11), parent(5, 0, 49), parent(5, 1, 50), parent(9, 1, 90)]
    );
    assert_eq!(
        blinded_amounts(&parents),
        vec![
            BlindedAmount([10; 32]),
            BlindedAmount([11; 32]),
            BlindedAmount([49; 32]),
            BlindedAmount([50; 32]),
            BlindedAmount([90; 32]),
        ]
    );
    assert!(parent(1, 1, 0).comes_before(&parent(1, 2, 0)));
    assert!(parent(1, 9, 0).comes_before(&parent(2, 0, 0)));
    assert!(!parent(1, 1, 0).comes_before(&parent(1, 1, 5)));
    assert!(!parent(2, 0, 0).comes_before(&parent(1, 9, 0)));
    let mut low = parent(1, 1, 0);
    low.dbc_id.0[47] = 0;
    assert!(low.comes_before(&parent(1, 1, 0)));
    assert!(parent(1, 1, 0).equals(&parent(1, 1, 0)));
    assert!(!parent(1, 1, 0).equals(&parent(1, 1, 1)));
}
