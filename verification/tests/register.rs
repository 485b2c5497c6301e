use sn_core::address::{RegisterAddress, XorName};
use sn_core::error::ProtocolError;
use sn_core::keys::{PublicKey, Signature};
use sn_core::register::{
    hashes_of, Action, EntryHash, MerkleDagEntry, Permissions, Register, RegisterOp, User, UserRights,
};
use std::collections::BTreeSet;
use std::collections::hash_map::DefaultHasher;
use std::hash::Hasher;

fn secret(seed: u8) -> blsttc::SecretKey {
    let mut bytes = [0u8; 32];
    bytes[31] = seed;
    blsttc::SecretKey::from_bytes(bytes).unwrap()
}

fn public(sk: &blsttc::SecretKey) -> PublicKey {
    PublicKey(sk.public_key().to_bytes())
}

fn open_register(owner: &blsttc::SecretKey) -> Register {
    Register::new(User::Key(public(owner)), XorName([1; 32]), 1, Permissions::anyone_can_write())
}

fn values(register: &Register) -> Vec<Vec<u8>> {
    register.read().into_iter().map(|(_, value)| value).collect()
}

fn signed(register: &mut Register, entry: &[u8], children: Vec<EntryHash>, sk: &blsttc::SecretKey) -> RegisterOp {
    let (_, mut op) = register.write(entry.to_vec(), children, User::Key(public(sk))).unwrap();
    op.sign_with(sk);
    op
}

#[test]
fn a_new_register_is_empty() {
    let owner = secret(1);
    let register = open_register(&owner);
    assert_eq!(register.size(), 0);
    assert!(register.read().is_empty());
    assert_eq!(register.owner(), User::Key(public(&owner)));
    assert_eq!(register.name(), &XorName([1; 32]));
    assert_eq!(register.tag(), 1);
    assert_eq!(register.address(), &RegisterAddress { name: XorName([1; 32]), tag: 1 });
    assert_eq!(register.permissions(), &Permissions::anyone_can_write());
}

#[test]
fn a_write_becomes_the_frontier() {
    let owner = secret(1);
    let mut register = open_register(&owner);
    let (first, _) = register.write(b"a".to_vec(), vec![], User::Key(public(&owner))).unwrap();
    assert_eq!(register.read(), vec![(first, b"a".to_vec())]);
    let (second, _) = register.write(b"b".to_vec(), vec![first], User::Key(public(&owner))).unwrap();
    assert_eq!(register.read(), vec![(second, b"b".to_vec())]);
    assert_eq!(register.size(), 2);
    assert_eq!(register.get(first), Ok(&b"a".to_vec()));
    assert_eq!(register.get(second), Ok(&b"b".to_vec()));
    let missing = EntryHash([0; 32]);
    assert_eq!(register.get(missing), Err(ProtocolError::NoSuchEntry(missing)));
}

#[test]
fn the_hash_of_a_node_is_that_of_the_dag() {
    let owner = secret(1);
    let mut register = open_register(&owner);
    let (first, _) = register.write(b"a".to_vec(), vec![], User::Key(public(&owner))).unwrap();
    let leaf: crdts::merkle_reg::Node<Vec<u8>> =
        crdts::merkle_reg::Node { children: BTreeSet::new(), value: b"a".to_vec() };
    assert_eq!(first.0, leaf.hash());
    let (second, _) = register.write(b"b".to_vec(), vec![first, first], User::Key(public(&owner))).unwrap();
    let mut children = BTreeSet::new();
    children.insert(first.0);
    let inner: crdts::merkle_reg::Node<Vec<u8>> = crdts::merkle_reg::Node { children, value: b"b".to_vec() };
    assert_eq!(second.0, inner.hash());
    assert_ne!(first, second);
}

#[test]
fn the_same_write_twice_adds_one_entry() {
    let owner = secret(1);
    let mut register = open_register(&owner);
    let (first, _) = register.write(b"a".to_vec(), vec![], User::Key(public(&owner))).unwrap();
    let (again, _) = register.write(b"a".to_vec(), vec![], User::Key(public(&owner))).unwrap();
    assert_eq!(first, again);
    assert_eq!(register.size(), 1);
}

#[test]
fn concurrent_writes_branch_and_a_write_atop_both_merges() {
    let owner = secret(1);
    let mut register = open_register(&owner);
    let (a, _) = register.write(b"a".to_vec(), vec![], User::Key(public(&owner))).unwrap();
    let (b, _) = register.write(b"b".to_vec(), vec![], User::Key(public(&owner))).unwrap();
    let mut expected = vec![(a, b"a".to_vec()), (b, b"b".to_vec())];
    expected.sort();
    assert_eq!(register.read(), expected);
    let (c, _) = register.write(b"c".to_vec(), vec![a, b], User::Key(public(&owner))).unwrap();
    assert_eq!(register.read(), vec![(c, b"c".to_vec())]);
    assert_eq!(register.size(), 3);
}

#[test]
fn the_frontier_is_listed_in_ascending_order_of_hash() {
    let owner = secret(1);
    let mut register = open_register(&owner);
    for entry in 0u8..20 {
        register.write(vec![entry], vec![], User::Key(public(&owner))).unwrap();
    }
    let listing = register.read();
    assert_eq!(listing.len(), 20);
    for pair in listing.windows(2) {
        assert!(pair[0].0 < pair[1].0);
    }
    assert_eq!(hashes_of(&listing), listing.iter().map(|(hash, _)| *hash).collect::<Vec<_>>());
}

#[test]
fn permissions() {
    let owner = secret(1);
    let friend = secret(2);
    let stranger = secret(3);
    let mut permissions = Permissions::new();
    assert_eq!(permissions.rights_of(&User::Anyone), None);
    permissions.insert(User::Key(public(&friend)), UserRights::new(true));
    permissions.insert(User::Key(public(&stranger)), UserRights::new(false));
    assert_eq!(permissions.rights_of(&User::Key(public(&friend))), Some(UserRights::new(true)));
    assert!(permissions.allows_write(&User::Key(public(&friend))));
    assert!(!permissions.allows_write(&User::Key(public(&stranger))));
    assert!(!permissions.allows_write(&User::Anyone));
    assert!(UserRights::new(true).can_write());
    assert!(!UserRights::new(false).can_write());

    let mut register = Register::new(User::Key(public(&owner)), XorName([1; 32]), 1, permissions.clone());
    assert_eq!(register.check_user_rights(Action::Write, User::Key(public(&owner))), Ok(()));
    assert_eq!(register.check_user_rights(Action::Write, User::Key(public(&friend))), Ok(()));
    assert_eq!(
        register.check_user_rights(Action::Write, User::Key(public(&stranger))),
        Err(ProtocolError::AccessDenied(User::Key(public(&stranger))))
    );
    assert_eq!(
        register.check_user_rights(Action::Write, User::Anyone),
        Err(ProtocolError::AccessDenied(User::Anyone))
    );
    assert_eq!(register.check_user_rights(Action::Read, User::Anyone), Ok(()));
    assert_eq!(register.check_user_rights(Action::Read, User::Key(public(&stranger))), Ok(()));
    assert_eq!(
        register.write(b"x".to_vec(), vec![], User::Key(public(&stranger))),
        Err(ProtocolError::AccessDenied(User::Key(public(&stranger))))
    );
    assert_eq!(register.size(), 0);

    permissions.insert(User::Key(public(&stranger)), UserRights::new(true));
    assert!(permissions.allows_write(&User::Key(public(&stranger))));
    assert!(permissions.equals(&permissions.clone()));
    assert!(!permissions.equals(&Permissions::new()));
}

#[test]
fn anyone_with_the_right_to_write_lets_every_key_write() {
    let owner = secret(1);
    let stranger = secret(3);
    let mut permissions = Permissions::anyone_can_write();
    permissions.insert(User::Key(public(&stranger)), UserRights::new(false));
    let register = Register::new(User::Key(public(&owner)), XorName([1; 32]), 1, permissions);
    assert_eq!(register.check_user_rights(Action::Write, User::Key(public(&stranger))), Ok(()));
    assert_eq!(register.check_user_rights(Action::Write, User::Anyone), Ok(()));
}

#[test]
fn a_signed_op_verifies_under_the_signers_key_only() {
    let owner = secret(1);
    let other = secret(2);
    let mut register = open_register(&owner);
    let (_, mut op) = register.write(b"a".to_vec(), vec![], User::Key(public(&owner))).unwrap();
    assert_eq!(op.signature, None);
    assert_eq!(op.verify_signature(&public(&owner)), Err(ProtocolError::MissingSignature));
    op.sign_with(&owner);
    assert_eq!(op.source(), User::Key(public(&owner)));
    assert_eq!(op.address(), RegisterAddress { name: XorName([1; 32]), tag: 1 });
    assert_eq!(op.verify_signature(&public(&owner)), Ok(()));
    assert_eq!(op.verify_signature(&public(&other)), Err(ProtocolError::InvalidSignature));
}

#[test]
fn the_signature_covers_address_node_and_source() {
    let owner = secret(1);
    let mut register = open_register(&owner);
    let op = signed(&mut register, b"a", vec![], &owner);
    assert_eq!(op.bytes_for_signing().len(), 8);
    assert_eq!(op.bytes_for_signing(), op.clone().bytes_for_signing());

    let mut moved = op.clone();
    moved.address = RegisterAddress { name: XorName([1; 32]), tag: 2 };
    assert_ne!(moved.bytes_for_signing(), op.bytes_for_signing());
    assert_eq!(moved.verify_signature(&public(&owner)), Err(ProtocolError::InvalidSignature));

    let mut changed = op.clone();
    changed.crdt_op = MerkleDagEntry { children: vec![], value: b"b".to_vec() };
    assert_ne!(changed.bytes_for_signing(), op.bytes_for_signing());
    assert_eq!(changed.verify_signature(&public(&owner)), Err(ProtocolError::InvalidSignature));

    let mut claimed = op.clone();
    claimed.source = User::Anyone;
    assert_ne!(claimed.bytes_for_signing(), op.bytes_for_signing());
    assert_eq!(claimed.verify_signature(&public(&owner)), Err(ProtocolError::InvalidSignature));
}

#[test]
fn a_signature_verifies_over_the_bytes_it_was_made_over() {
    let owner = secret(1);
    let mut register = open_register(&owner);
    let op = signed(&mut register, b"a", vec![], &owner);
    let bytes = op.bytes_for_signing();
    assert_eq!(op.verify_signature_over(&public(&owner), &bytes), Ok(()));
    assert_eq!(op.verify_signature_over(&public(&owner), &vec![0u8; 8]), Err(ProtocolError::InvalidSignature));
    let by_hand = Signature(owner.sign(&bytes).to_bytes());
    assert_eq!(op.signature, Some(by_hand));
}

#[test]
fn a_signature_made_elsewhere_can_be_added() {
    let owner = secret(1);
    let writer = secret(2);
    let mut register = open_register(&owner);
    let (_, mut op) = register.write(b"a".to_vec(), vec![], User::Anyone).unwrap();
    assert_eq!(op.source(), User::Anyone);
    let mut claimed = RegisterOp::new(op.address(), op.crdt_op.clone(), User::Key(public(&writer)), None);
    let signature = Signature(writer.sign(claimed.bytes_for_signing()).to_bytes());
    assert_eq!(op.add_signature(public(&writer), signature), Ok(()));
    assert_eq!(op.source(), User::Key(public(&writer)));
    assert_eq!(op.verify_signature(&public(&writer)), Ok(()));
    assert_eq!(claimed.add_signature(public(&writer), Signature([0u8; 96])), Ok(()));
    assert_eq!(claimed.verify_signature(&public(&writer)), Err(ProtocolError::InvalidSignature));
}

#[test]
fn an_op_is_applied_only_if_it_is_addressed_allowed_and_signed() {
    let owner = secret(1);
    let writer = secret(2);
    let stranger = secret(3);
    let mut permissions = Permissions::new();
    permissions.insert(User::Key(public(&writer)), UserRights::new(true));
    let mut source = Register::new(User::Key(public(&owner)), XorName([1; 32]), 1, permissions.clone());
    let mut replica = Register::new(User::Key(public(&owner)), XorName([1; 32]), 1, permissions.clone());
    let mut elsewhere = Register::new(User::Key(public(&owner)), XorName([1; 32]), 2, permissions);

    let (_, unsigned) = source.write(b"a".to_vec(), vec![], User::Key(public(&writer))).unwrap();
    assert_eq!(replica.apply_op(&unsigned), Err(ProtocolError::MissingSignature));

    let mut op = unsigned.clone();
    op.sign_with(&writer);
    assert_eq!(
        elsewhere.apply_op(&op),
        Err(ProtocolError::RegisterAddressMismatch {
            dst_addr: RegisterAddress { name: XorName([1; 32]), tag: 1 },
            reg_addr: RegisterAddress { name: XorName([1; 32]), tag: 2 },
        })
    );

    let mut forged = unsigned.clone();
    forged.sign_with(&stranger);
    assert_eq!(replica.apply_op(&forged), Err(ProtocolError::AccessDenied(User::Key(public(&stranger)))));

    let mut stolen = op.clone();
    stolen.source = User::Key(public(&owner));
    assert_eq!(replica.apply_op(&stolen), Err(ProtocolError::InvalidSignature));

    let mut nobody = op.clone();
    nobody.source = User::Anyone;
    assert_eq!(replica.apply_op(&nobody), Err(ProtocolError::AccessDenied(User::Anyone)));

    assert_eq!(replica.size(), 0);
    assert_eq!(replica.apply_op(&op), Ok(()));
    assert_eq!(values(&replica), vec![b"a".to_vec()]);
    assert_eq!(replica.apply_op(&op), Ok(()));
    assert_eq!(replica.size(), 1);

    let mut by_owner = unsigned.clone();
    by_owner.sign_with(&owner);
    assert_eq!(replica.apply_op(&by_owner), Ok(()));
    assert_eq!(replica.size(), 1);
}

#[test]
fn an_op_of_anyone_cannot_be_verified() {
    let owner = secret(1);
    let mut source = open_register(&owner);
    let mut replica = open_register(&owner);
    let (_, mut op) = source.write(b"a".to_vec(), vec![], User::Anyone).unwrap();
    assert_eq!(replica.apply_op(&op), Err(ProtocolError::MissingSignature));
    op.signature = Some(Signature([0u8; 96]));
    assert_eq!(replica.apply_op(&op), Err(ProtocolError::InvalidSignature));
}

#[test]
fn replicas_converge_whatever_the_order_of_the_ops() {
    let owner = secret(1);
    let mut source = open_register(&owner);
    let a = signed(&mut source, b"a", vec![], &owner);
    let a_hash = source.read()[0].0;
    let b = signed(&mut source, b"b", vec![a_hash], &owner);
    let b_hash = source.read()[0].0;
    let c = signed(&mut source, b"c", vec![a_hash], &owner);
    let d = signed(&mut source, b"d", vec![b_hash], &owner);
    let ops = vec![a, b, c, d];
    let expected = source.read();
    assert_eq!(expected.len(), 2);

    let orders: Vec<Vec<usize>> = vec![
        vec![0, 1, 2, 3],
        vec![3, 2, 1, 0],
        vec![1, 3, 0, 2],
        vec![2, 0, 3, 1],
        vec![3, 0, 1, 2],
        vec![1, 0, 1, 2, 3, 3],
    ];
    for order in orders {
        let mut replica = open_register(&owner);
        for i in order {
            assert_eq!(replica.apply_op(&ops[i]), Ok(()));
        }
        assert_eq!(replica.read(), expected);
        assert_eq!(replica.size(), 4);
    }
}

#[test]
fn a_node_whose_child_is_missing_is_not_seen_until_the_child_comes() {
    let owner = secret(1);
    let mut source = open_register(&owner);
    let a = signed(&mut source, b"a", vec![], &owner);
    let a_hash = source.read()[0].0;
    let b = signed(&mut source, b"b", vec![a_hash], &owner);
    let b_hash = source.read()[0].0;

    let mut replica = open_register(&owner);
    assert_eq!(replica.apply_op(&b), Ok(()));
    assert_eq!(replica.size(), 0);
    assert!(replica.read().is_empty());
    assert_eq!(replica.get(b_hash), Ok(&b"b".to_vec()));
    assert_eq!(replica.apply_op(&a), Ok(()));
    assert_eq!(replica.size(), 2);
    assert_eq!(replica.read(), vec![(b_hash, b"b".to_vec())]);
}

#[test]
fn merge_is_a_union() {
    let owner = secret(1);
    let mut left = open_register(&owner);
    let mut right = open_register(&owner);
    left.write(b"a".to_vec(), vec![], User::Key(public(&owner))).unwrap();
    right.write(b"b".to_vec(), vec![], User::Key(public(&owner))).unwrap();
    let mut both = left.duplicate();
    both.merge(&right);
    let mut other = right.duplicate();
    other.merge(&left);
    assert_eq!(both.read(), other.read());
    assert_eq!(both.size(), 2);
    let before = both.read();
    both.merge(&left);
    both.merge(&right);
    let copy = both.duplicate();
    both.merge(&copy);
    assert_eq!(both.read(), before);
    assert_eq!(both.size(), 2);

    let mut third = open_register(&owner);
    third.write(b"c".to_vec(), vec![], User::Key(public(&owner))).unwrap();
    let mut one = left.duplicate();
    one.merge(&right);
    one.merge(&third);
    let mut two = right.duplicate();
    two.merge(&third);
    let mut grouped = left.duplicate();
    grouped.merge(&two);
    assert_eq!(one.read(), grouped.read());
    assert_eq!(one.size(), 3);
}

#[test]
fn a_register_is_rebuilt_from_its_entries() {
    let owner = secret(1);
    let mut register = open_register(&owner);
    let (a, _) = register.write(b"a".to_vec(), vec![], User::Key(public(&owner))).unwrap();
    let (b, _) = register.write(b"b".to_vec(), vec![a], User::Key(public(&owner))).unwrap();
    let (c, _) = register.write(b"c".to_vec(), vec![a], User::Key(public(&owner))).unwrap();
    register.write(b"d".to_vec(), vec![b, c], User::Key(public(&owner))).unwrap();
    let entries = register.entries();
    assert_eq!(entries.len(), 4);
    let mut values: Vec<Vec<u8>> = entries.iter().map(|entry| entry.value.clone()).collect();
    values.sort();
    assert_eq!(values, vec![b"a".to_vec(), b"b".to_vec(), b"c".to_vec(), b"d".to_vec()]);
    let last = entries.iter().find(|entry| entry.value == b"d".to_vec()).unwrap();
    let mut children = vec![b, c];
    children.sort();
    assert_eq!(last.children, children);

    let mut reversed: Vec<MerkleDagEntry> = entries.iter().map(|entry| entry.clone()).collect();
    reversed.reverse();
    for order in [entries, reversed] {
        let rebuilt = Register::with_entries(
            register.owner(),
            *register.name(),
            register.tag(),
            Permissions::from_grants(register.permissions().grants().clone()),
            &order,
        );
        assert_eq!(rebuilt.read(), register.read());
        assert_eq!(rebuilt.size(), 4);
        assert_eq!(rebuilt.owner(), register.owner());
        assert_eq!(rebuilt.address(), register.address());
        assert_eq!(rebuilt.permissions(), register.permissions());
    }
    let empty = Register::with_entries(User::Anyone, XorName([2; 32]), 3, Permissions::new(), &vec![]);
    assert_eq!(empty.size(), 0);
    assert!(empty.entries().is_empty());
    assert_eq!(empty.owner(), User::Anyone);
}

#[test]
fn the_entries_of_a_register_are_those_that_are_seen() {
    let owner = secret(1);
    let mut source = open_register(&owner);
    let a = signed(&mut source, b"a", vec![], &owner);
    let a_hash = source.read()[0].0;
    let b = signed(&mut source, b"b", vec![a_hash], &owner);
    let mut replica = open_register(&owner);
    assert_eq!(replica.apply_op(&b), Ok(()));
    assert!(replica.entries().is_empty());
    assert_eq!(replica.apply_op(&a), Ok(()));
    assert_eq!(replica.entries().len(), 2);
}

#[test]
fn grants_are_read_in_their_order() {
    let key = User::Key(PublicKey([4; 48]));
    let permissions =
        Permissions::from_grants(vec![(key, UserRights::new(true)), (key, UserRights::new(false))]);
    assert_eq!(permissions.rights_of(&key), Some(UserRights::new(true)));
    assert_eq!(permissions.grants(), &vec![(key, UserRights::new(true)), (key, UserRights::new(false))]);
    assert_eq!(Permissions::anyone_can_write().grants(), &vec![(User::Anyone, UserRights::new(true))]);
}

#[test]
fn the_signing_input_is_name_tag_node_and_source() {
    let owner = secret(1);
    let mut register = Register::new(
        User::Key(public(&owner)),
        XorName([3; 32]),
        0x0102030405060708,
        Permissions::anyone_can_write(),
    );
    let (hash, op) = register.write(b"a".to_vec(), vec![], User::Key(public(&owner))).unwrap();
    let mut expected = vec![3u8; 32];
    expected.extend_from_slice(&[1, 2, 3, 4, 5, 6, 7, 8]);
    expected.extend_from_slice(&hash.0);
    expected.push(1);
    expected.extend_from_slice(&public(&owner).0);
    assert_eq!(op.signing_input(), expected);
    assert_eq!(op.signing_input().len(), 32 + 8 + 32 + 1 + 48);
    assert_eq!(op.address().identity_bytes(), expected[..40].to_vec());

    let (_, anyone) = register.write(b"a".to_vec(), vec![], User::Anyone).unwrap();
    let mut expected = expected[..72].to_vec();
    expected.push(0);
    assert_eq!(anyone.signing_input(), expected);
    assert_ne!(anyone.bytes_for_signing(), op.bytes_for_signing());
}

#[test]
fn signing_sets_the_keys_public_key_and_its_signature() {
    let owner = secret(1);
    let signer = secret(2);
    let mut register = open_register(&owner);
    let (_, mut op) = register.write(b"a".to_vec(), vec![], User::Key(public(&owner))).unwrap();
    let before = op.clone();
    op.sign_with(&signer);
    assert_eq!(op.source, User::Key(PublicKey(signer.public_key().to_bytes())));
    assert_eq!(op.signature, Some(Signature(signer.sign(op.bytes_for_signing()).to_bytes())));
    assert_ne!(op.signature, Some(Signature(signer.sign(before.bytes_for_signing()).to_bytes())));
    assert_eq!(op.address, before.address);
    assert_eq!(op.crdt_op, before.crdt_op);
    assert_eq!(op.verify_signature(&public(&signer)), Ok(()));
    op.sign_with(&owner);
    assert_eq!(op.source, User::Key(public(&owner)));
    assert_eq!(op.verify_signature(&public(&owner)), Ok(()));
}

#[test]
fn the_bytes_for_signing_are_the_hash_of_the_signing_input_in_a_byte_order() {
    let owner = secret(1);
    let mut register = open_register(&owner);
    let (_, op) = register.write(b"a".to_vec(), vec![], User::Key(public(&owner))).unwrap();
    let mut hasher = DefaultHasher::new();
    hasher.write(&op.signing_input());
    let digest = hasher.finish();
    let bytes = op.bytes_for_signing();
    assert!(bytes == digest.to_le_bytes().to_vec() || bytes == digest.to_be_bytes().to_vec());
    assert_eq!(bytes, digest.to_ne_bytes().to_vec());
    assert_ne!(bytes, op.signing_input());

    let same = RegisterOp::new(op.address, op.crdt_op.clone(), op.source, None);
    assert_eq!(same.bytes_for_signing(), bytes);
}

#[test]
fn permissions_are_the_same_where_every_user_has_the_same_rights() {
    let friend = User::Key(public(&secret(2)));
    let stranger = User::Key(public(&secret(3)));
    let one = Permissions::from_grants(vec![(friend, UserRights::new(true)), (stranger, UserRights::new(false))]);
    let other = Permissions::from_grants(vec![(stranger, UserRights::new(false)), (friend, UserRights::new(true))]);
    assert!(one.equals(&other));
    assert!(one == other);
    assert!(one.within(&other) && other.within(&one));

    let shadowed = Permissions::from_grants(vec![
        (friend, UserRights::new(true)),
        (stranger, UserRights::new(false)),
        (friend, UserRights::new(false)),
    ]);
    assert!(one.equals(&shadowed));

    let mut changed = other.clone();
    changed.insert(stranger, UserRights::new(true));
    assert!(!one.equals(&changed));
    assert!(one != changed);
    assert_eq!(changed.rights_of(&stranger), Some(UserRights::new(true)));

    let fewer = Permissions::from_grants(vec![(friend, UserRights::new(true))]);
    assert!(fewer.within(&one));
    assert!(!one.within(&fewer));
    assert!(!one.equals(&fewer));
    assert!(Permissions::new().within(&fewer));
}
