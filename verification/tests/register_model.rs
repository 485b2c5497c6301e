use sn_core::address::XorName;
use sn_core::error::ProtocolError;
use sn_core::register::{EntryHash, MerkleDagEntry, Permissions, Register, User};
use std::collections::{BTreeMap, BTreeSet};

struct Draw(u64);

impl Draw {
    fn next(&mut self) -> u64 {
        self.0 = self.0.wrapping_mul(6364136223846793005).wrapping_add(1442695040888963407);
        self.0 >> 33
    }

    fn below(&mut self, bound: usize) -> usize {
        (self.next() % bound as u64) as usize
    }
}

fn hash_of(entry: &MerkleDagEntry) -> [u8; 32] {
    let node: crdts::merkle_reg::Node<Vec<u8>> = crdts::merkle_reg::Node {
        children: entry.children.iter().map(|child| child.0).collect(),
        value: entry.value.clone(),
    };
    node.hash()
}

fn pool(draw: &mut Draw, size: usize) -> Vec<MerkleDagEntry> {
    let mut nodes: Vec<MerkleDagEntry> = Vec::new();
    for i in 0..size {
        let mut children = Vec::new();
        if i > 0 {
            for _ in 0..draw.below(4) {
                children.push(EntryHash(hash_of(&nodes[draw.below(i)])));
            }
        }
        if draw.below(10) == 0 {
            children.push(EntryHash([0xee; 32]));
        }
        nodes.push(MerkleDagEntry { children, value: vec![i as u8, (i >> 8) as u8] });
    }
    nodes
}

fn arrivals(draw: &mut Draw, pool: &[MerkleDagEntry]) -> Vec<MerkleDagEntry> {
    let count = pool.len() + draw.below(pool.len());
    (0..count).map(|_| pool[draw.below(pool.len())].clone()).collect()
}

struct Model {
    arrived: BTreeMap<[u8; 32], MerkleDagEntry>,
    visible: BTreeSet<[u8; 32]>,
    frontier: Vec<(EntryHash, Vec<u8>)>,
}

fn model(arrivals: &[MerkleDagEntry]) -> Model {
    let mut arrived = BTreeMap::new();
    for entry in arrivals {
        arrived.entry(hash_of(entry)).or_insert_with(|| entry.clone());
    }
    let mut visible: BTreeSet<[u8; 32]> = BTreeSet::new();
    loop {
        let more: Vec<[u8; 32]> = arrived
            .iter()
            .filter(|(hash, entry)| {
                !visible.contains(*hash) && entry.children.iter().all(|child| visible.contains(&child.0))
            })
            .map(|(hash, _)| *hash)
            .collect();
        if more.is_empty() {
            break;
        }
        visible.extend(more);
    }
    let referred: BTreeSet<[u8; 32]> =
        visible.iter().flat_map(|hash| arrived[hash].children.iter().map(|child| child.0)).collect();
    let frontier = visible
        .iter()
        .filter(|hash| !referred.contains(*hash))
        .map(|hash| (EntryHash(*hash), arrived[hash].value.clone()))
        .collect();
    Model { arrived, visible, frontier }
}

fn register_of(entries: &Vec<MerkleDagEntry>) -> Register {
    Register::with_entries(User::Anyone, XorName([1; 32]), 1, Permissions::new(), entries)
}

fn agrees(register: &Register, model: &Model, pool: &[MerkleDagEntry]) {
    assert_eq!(register.size(), model.visible.len() as u64);
    assert_eq!(register.read(), model.frontier);
    let entries = register.entries();
    assert_eq!(entries.len(), model.visible.len());
    let listed: BTreeSet<[u8; 32]> = entries.iter().map(hash_of).collect();
    assert_eq!(listed, model.visible);
    for entry in &entries {
        let held = &model.arrived[&hash_of(entry)];
        assert_eq!(entry.value, held.value);
        let children: BTreeSet<EntryHash> = held.children.iter().copied().collect();
        assert_eq!(entry.children, children.into_iter().collect::<Vec<_>>());
    }
    for entry in pool {
        let hash = EntryHash(hash_of(entry));
        match model.arrived.get(&hash.0) {
            Some(held) => assert_eq!(register.get(hash), Ok(&held.value)),
            None => assert_eq!(register.get(hash), Err(ProtocolError::NoSuchEntry(hash))),
        }
    }
}

#[test]
fn a_register_reads_as_the_set_of_its_nodes_says() {
    let mut draw = Draw(7);
    for round in 0..60 {
        let pool = pool(&mut draw, 2 + round % 17);
        let arrivals = arrivals(&mut draw, &pool);
        let expected = model(&arrivals);
        agrees(&register_of(&arrivals), &expected, &pool);
    }
}

#[test]
fn the_order_of_arrival_does_not_show() {
    let mut draw = Draw(11);
    for round in 0..40 {
        let pool = pool(&mut draw, 3 + round % 13);
        let arrivals = arrivals(&mut draw, &pool);
        let first = register_of(&arrivals);
        let mut shuffled = arrivals.clone();
        for i in (1..shuffled.len()).rev() {
            shuffled.swap(i, draw.below(i + 1));
        }
        let second = register_of(&shuffled);
        assert_eq!(first.read(), second.read());
        assert_eq!(first.size(), second.size());
        assert_eq!(first.entries(), second.entries());
    }
}

#[test]
fn a_merge_holds_the_nodes_of_both() {
    let mut draw = Draw(13);
    for round in 0..40 {
        let pool = pool(&mut draw, 3 + round % 13);
        let arrivals = arrivals(&mut draw, &pool);
        let cut = draw.below(arrivals.len() + 1);
        let mut left = register_of(&arrivals[..cut].to_vec());
        let mut right = register_of(&arrivals[cut..].to_vec());
        let whole = model(&arrivals);
        let copy = left.duplicate();
        left.merge(&right);
        agrees(&left, &whole, &pool);
        right.merge(&copy);
        agrees(&right, &whole, &pool);
        left.merge(&right);
        agrees(&left, &whole, &pool);
    }
}
