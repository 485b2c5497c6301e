//! The register: a mutable, permissioned store whose state is a Merkle DAG
//! of entries, kept by `crdts::merkle_reg::MerkleReg`.
//!
//! Every replica that has received the same nodes holds the same DAG, in
//! whatever order the nodes came: that makes the register convergent.

use crate::address::{RegisterAddress, XorName};
use crate::error::ProtocolError;
use crate::keys::{
    bls_public_key_of, bls_signature_of, bls_verifies, public_key_of, sign_bytes, verify_bytes, PublicKey, Signature,
};
use crate::octets::{append_array, array_eq, be_bytes, in_a_byte_order, le_bytes, lex_less};
use vstd::prelude::*;
use vstd::std_specs::cmp::PartialEqSpecImpl;

verus! {

/// The hash of an entry's node in the DAG.
#[derive(Clone, Copy, Debug, PartialEq, Eq, PartialOrd, Ord, Hash)]
pub struct EntryHash(pub [u8; 32]);

impl View for EntryHash {
    type V = Seq<u8>;

    open spec fn view(&self) -> Seq<u8> {
        self.0@
    }
}

impl EntryHash {
    /// Whether two hashes are the same.
    pub fn equals(&self, other: &EntryHash) -> (same: bool)
        ensures
            same == (*self == *other),
            same == (self@ == other@),
    {
        array_eq(&self.0, &other.0)
    }
}

/// An entry of a register: opaque bytes.
pub type Entry = Vec<u8>;

/// Who asks: a holder of a key, or anyone at all.
#[derive(Clone, Copy, Debug, PartialEq, Eq, PartialOrd, Ord, Hash)]
pub enum User {
    /// Any user.
    Anyone,
    /// The holder of the secret counterpart of this key.
    Key(PublicKey),
}

impl User {
    /// Whether two users are the same.
    pub fn equals(&self, other: &User) -> (same: bool)
        ensures
            same == (*self == *other),
    {
        match (self, other) {
            (User::Anyone, User::Anyone) => true,
            (User::Key(a), User::Key(b)) => a.equals(b),
            _ => false,
        }
    }
}

/// What a user may ask of a register.
#[derive(Clone, Copy, Debug, PartialEq, Eq)]
pub enum Action {
    /// To read the register.
    Read,
    /// To write an entry.
    Write,
}

/// The rights of a user: whether the user may write.
#[derive(Clone, Copy, Debug, PartialEq, Eq, PartialOrd, Ord, Hash)]
pub struct UserRights {
    /// Whether the user may write.
    pub write: bool,
}

impl UserRights {
    /// Whether the rights include writing.
    pub open spec fn may_write(&self) -> bool {
        self.write
    }

    /// The rights with the given may-write bit.
    pub fn new(write: bool) -> (rights: UserRights)
        ensures
            rights.may_write() == write,
    {
        UserRights { write }
    }

    /// Whether the rights include writing.
    pub fn can_write(&self) -> (write: bool)
        ensures
            write == self.may_write(),
    {
        self.write
    }
}

/// The rights that a list of grants gives: to each user those of the first
/// grant that names the user.
pub open spec fn rights_in(grants: Seq<(User, UserRights)>) -> Map<User, UserRights>
    decreases grants.len(),
{
    if grants.len() == 0 {
        Map::empty()
    } else {
        rights_in(grants.drop_first()).insert(grants[0].0, grants[0].1)
    }
}

/// No rights for anyone.
pub open spec fn no_rights() -> Map<User, UserRights> {
    Map::empty()
}

/// The rights that are granted to a user, if any are.
pub open spec fn granted(rights: Map<User, UserRights>, user: User) -> Option<UserRights> {
    if rights.dom().contains(user) {
        Some(rights[user])
    } else {
        None
    }
}

/// Whether the rights let a user write: either anyone may write, or the user
/// is granted the right to.
pub open spec fn grants_write(rights: Map<User, UserRights>, user: User) -> bool {
    ||| (granted(rights, User::Anyone) matches Some(found) && found.may_write())
    ||| (granted(rights, user) matches Some(found) && found.may_write())
}

/// The first grant of a list that names a user is the one that counts.
pub proof fn lemma_first_grant_counts(grants: Seq<(User, UserRights)>, i: int, user: User)
    requires
        0 <= i < grants.len(),
        grants[i].0 == user,
        forall|j: int| 0 <= j < i ==> (#[trigger] grants[j]).0 != user,
    ensures
        granted(rights_in(grants), user) == Some(grants[i].1),
    decreases i,
{
    if i > 0 {
        let rest = grants.drop_first();
        assert forall|j: int| 0 <= j < i - 1 implies (#[trigger] rest[j]).0 != user by {
            assert(rest[j] == grants[j + 1]);
        }
        assert(grants[0].0 != user);
        lemma_first_grant_counts(rest, i - 1, user);
    }
}

/// A list of grants gives rights to exactly the users that it names.
pub proof fn lemma_granted_are_named(grants: Seq<(User, UserRights)>, user: User)
    ensures
        rights_in(grants).dom().contains(user) <==> exists|i: int|
            0 <= i < grants.len() && (#[trigger] grants[i]).0 == user,
    decreases grants.len(),
{
    if grants.len() > 0 {
        let rest = grants.drop_first();
        lemma_granted_are_named(rest, user);
        if exists|i: int| 0 <= i < rest.len() && (#[trigger] rest[i]).0 == user {
            let i = choose|i: int| 0 <= i < rest.len() && (#[trigger] rest[i]).0 == user;
            assert(grants[i + 1].0 == user);
        }
        if exists|i: int| 0 <= i < grants.len() && (#[trigger] grants[i]).0 == user {
            let i = choose|i: int| 0 <= i < grants.len() && (#[trigger] grants[i]).0 == user;
            if i > 0 {
                assert(rest[i - 1].0 == user);
            }
        }
    }
}

/// The permissions of a register: a map from users to their rights.
#[derive(Debug, Eq)]
pub struct Permissions {
    grants: Vec<(User, UserRights)>,
}

impl View for Permissions {
    type V = Map<User, UserRights>;

    closed spec fn view(&self) -> Map<User, UserRights> {
        rights_in(self.grants@)
    }
}

impl Clone for Permissions {
    fn clone(&self) -> (copy: Permissions)
        ensures
            copy@ == self@,
    {
        let mut grants: Vec<(User, UserRights)> = Vec::new();
        let mut i: usize = 0;
        while i < self.grants.len()
            invariant
                i <= self.grants.len(),
                grants@ == self.grants@.take(i as int),
            decreases self.grants.len() - i,
        {
            grants.push(self.grants[i]);
            i += 1;
        }
        assert(grants@ =~= self.grants@);
        Permissions { grants }
    }
}

impl PartialEq for Permissions {
    fn eq(&self, other: &Permissions) -> (same: bool) {
        self.equals(other)
    }
}

impl PartialEqSpecImpl for Permissions {
    open spec fn obeys_eq_spec() -> bool {
        true
    }

    open spec fn eq_spec(&self, other: &Permissions) -> bool {
        self@ == other@
    }
}

impl Permissions {
    /// Permissions that grant nothing.
    pub fn new() -> (permissions: Permissions)
        ensures
            permissions@ == no_rights(),
    {
        Permissions { grants: Vec::new() }
    }

    /// Permissions with the given grants, the first grant that names a user
    /// being the one that counts.
    pub fn from_grants(grants: Vec<(User, UserRights)>) -> (permissions: Permissions)
        ensures
            permissions@ == rights_in(grants@),
    {
        Permissions { grants }
    }

    /// Grants that give these permissions, the first grant that names a
    /// user being the one that counts.
    pub fn grants(&self) -> (grants: &Vec<(User, UserRights)>)
        ensures
            rights_in(grants@) == self@,
    {
        &self.grants
    }

    /// Permissions that let anyone write.
    pub fn anyone_can_write() -> (permissions: Permissions)
        ensures
            permissions@ == no_rights().insert(User::Anyone, (UserRights { write: true })),
            forall|user: User| grants_write(permissions@, user),
    {
        let mut grants: Vec<(User, UserRights)> = Vec::new();
        grants.push((User::Anyone, UserRights::new(true)));
        proof {
            reveal_with_fuel(rights_in, 2);
            assert(grants@.drop_first() =~= Seq::<(User, UserRights)>::empty());
            assert(rights_in(grants@) =~= no_rights().insert(User::Anyone, UserRights { write: true }));
        }
        Permissions { grants }
    }

    /// Gives `user` the rights `rights`, in place of any that the user had.
    pub fn insert(&mut self, user: User, rights: UserRights)
        ensures
            final(self)@ == old(self)@.insert(user, rights),
    {
        self.grants.insert(0, (user, rights));
        proof {
            let after = self.grants@;
            assert(after.drop_first() =~= old(self).grants@);
        }
    }

    /// The rights that are granted to `user`, if any are.
    pub fn rights_of(&self, user: &User) -> (rights: Option<UserRights>)
        ensures
            rights == granted(self@, *user),
    {
        let mut i: usize = 0;
        while i < self.grants.len()
            invariant
                i <= self.grants.len(),
                forall|j: int| 0 <= j < i ==> (#[trigger] self.grants@[j]).0 != *user,
            decreases self.grants.len() - i,
        {
            let grant = self.grants[i];
            if grant.0.equals(user) {
                proof {
                    lemma_first_grant_counts(self.grants@, i as int, *user);
                }
                return Some(grant.1);
            }
            i += 1;
        }
        proof {
            lemma_granted_are_named(self.grants@, *user);
        }
        None
    }

    /// Whether the permissions let `user` write.
    pub fn allows_write(&self, user: &User) -> (allowed: bool)
        ensures
            allowed == grants_write(self@, *user),
    {
        let everyone = self.rights_of(&User::Anyone);
        let own = self.rights_of(user);
        let by_everyone = match everyone {
            Some(rights) => rights.can_write(),
            None => false,
        };
        let by_own = match own {
            Some(rights) => rights.can_write(),
            None => false,
        };
        by_everyone || by_own
    }

    /// Whether every user that has rights here has the same rights in
    /// `other`.
    pub fn within(&self, other: &Permissions) -> (inside: bool)
        ensures
            inside == self@.submap_of(other@),
    {
        let mut i: usize = 0;
        while i < self.grants.len()
            invariant
                i <= self.grants.len(),
                forall|j: int|
                    0 <= j < i ==> granted(other@, (#[trigger] self.grants@[j]).0) == granted(
                        self@,
                        self.grants@[j].0,
                    ),
            decreases self.grants.len() - i,
        {
            let user = self.grants[i].0;
            let here = self.rights_of(&user);
            let there = other.rights_of(&user);
            proof {
                lemma_granted_are_named(self.grants@, user);
            }
            let same = match (here, there) {
                (Some(a), Some(b)) => a.can_write() == b.can_write(),
                _ => false,
            };
            if !same {
                return false;
            }
            i += 1;
        }
        proof {
            assert forall|user: User| #[trigger] self@.dom().contains(user) implies other@.dom().contains(user)
                && self@[user] == other@[user] by {
                lemma_granted_are_named(self.grants@, user);
                let j = choose|j: int| 0 <= j < self.grants@.len() && (#[trigger] self.grants@[j]).0 == user;
                assert(granted(other@, self.grants@[j].0) == granted(self@, self.grants@[j].0));
            }
        }
        true
    }

    /// Whether two sets of permissions grant the same rights to every user.
    pub fn equals(&self, other: &Permissions) -> (same: bool)
        ensures
            same == (self@ == other@),
    {
        let same = self.within(other) && other.within(self);
        proof {
            if same {
                assert forall|user: User| self@.dom().contains(user) <==> other@.dom().contains(user) by {}
                assert forall|user: User| self@.dom().contains(user) implies #[trigger] self@[user] == other@[user] by {}
                assert(self@ =~= other@);
            }
        }
        same
    }
}

/// A node of the DAG: an entry and the hashes of the entries it was written
/// atop.
#[derive(Debug, PartialEq, Eq, PartialOrd, Ord, Hash)]
pub struct MerkleDagEntry {
    /// The hashes of the nodes that this node is written atop.
    pub children: Vec<EntryHash>,
    /// The entry.
    pub value: Entry,
}

/// A node as the DAG knows it: the set of its children's hashes, and its
/// value.
pub type NodeView = (Set<Seq<u8>>, Seq<u8>);

/// The set of the hashes in a list.
pub open spec fn hash_set(hashes: Seq<EntryHash>) -> Set<Seq<u8>> {
    Set::new(|h: Seq<u8>| exists|i: int| 0 <= i < hashes.len() && hashes[i]@ == h)
}

impl View for MerkleDagEntry {
    type V = NodeView;

    open spec fn view(&self) -> NodeView {
        (hash_set(self.children@), self.value@)
    }
}

impl Clone for MerkleDagEntry {
    fn clone(&self) -> (copy: MerkleDagEntry)
        ensures
            copy.children@ == self.children@,
            copy.value@ == self.value@,
            copy@ == self@,
    {
        let mut children: Vec<EntryHash> = Vec::new();
        let mut i: usize = 0;
        while i < self.children.len()
            invariant
                i <= self.children.len(),
                children@ == self.children@.take(i as int),
            decreases self.children.len() - i,
        {
            children.push(self.children[i]);
            i += 1;
        }
        assert(self.children@.take(self.children.len() as int) =~= self.children@);
        MerkleDagEntry { children, value: self.value.clone() }
    }
}

/// The Merkle DAG register of `crdts`, generic in its values.
#[verifier::external_type_specification]
#[verifier::external_body]
#[verifier::reject_recursive_types(T)]
pub struct ExMerkleReg<T>(crdts::merkle_reg::MerkleReg<T>);

/// Every node that a `MerkleReg` holds, by its hash: those of its DAG and
/// those it keeps aside because a child of theirs has not come yet.
///
/// `apply` puts a node into the DAG only when all its children are there,
/// and whenever a node enters the DAG it tries again every node that it kept
/// aside. So the DAG holds exactly the nodes all of whose descendants have
/// come (`visible`), and its roots are exactly the nodes of the DAG that no
/// node of the DAG has as a child (`frontier`). The registers spoken of here
/// are made by `new`, `apply`, `merge` and `clone` alone, so each node stands
/// under its own hash.
pub uninterp spec fn merkle_nodes(reg: crdts::merkle_reg::MerkleReg<Vec<u8>>) -> Map<Seq<u8>, NodeView>;

/// The hash that `crdts::merkle_reg::Node::hash` gives to a node: SHA3-256
/// over the children's hashes in ascending order, then the value.
pub uninterp spec fn node_hash(children: Set<Seq<u8>>, value: Seq<u8>) -> Seq<u8>;

/// The map that holds no node.
pub open spec fn no_nodes() -> Map<Seq<u8>, NodeView> {
    Map::empty()
}

/// The nodes after one more node has come: the node stands under its hash,
/// unless a node stood there already.
pub open spec fn with_node(nodes: Map<Seq<u8>, NodeView>, node: NodeView) -> Map<Seq<u8>, NodeView> {
    let hash = node_hash(node.0, node.1);
    if nodes.dom().contains(hash) {
        nodes
    } else {
        nodes.insert(hash, node)
    }
}

/// Whether the node under `hash` can be reached from nodes without children
/// in at most `depth` steps, every child on the way being present.
pub open spec fn grounded(nodes: Map<Seq<u8>, NodeView>, hash: Seq<u8>, depth: nat) -> bool
    decreases depth,
{
    &&& depth > 0
    &&& nodes.dom().contains(hash)
    &&& forall|child: Seq<u8>| #[trigger]
        nodes[hash].0.contains(child) ==> grounded(nodes, child, (depth - 1) as nat)
}

/// The hashes of the DAG proper: the nodes all of whose descendants have
/// come. The others are kept aside and are not seen by readers.
pub open spec fn visible(nodes: Map<Seq<u8>, NodeView>) -> Set<Seq<u8>> {
    Set::new(|hash: Seq<u8>| exists|depth: nat| grounded(nodes, hash, depth))
}

/// The frontier: the hashes of the DAG's nodes that no node of the DAG names
/// as a child.
pub open spec fn frontier(nodes: Map<Seq<u8>, NodeView>) -> Set<Seq<u8>> {
    Set::new(
        |hash: Seq<u8>|
            visible(nodes).contains(hash) && forall|parent: Seq<u8>|
                visible(nodes).contains(parent) ==> !(#[trigger] nodes[parent]).0.contains(hash),
    )
}

/// Whether `listing` is the frontier of `nodes` in ascending order of hash,
/// each hash with the value of its node.
pub open spec fn lists_frontier(listing: Seq<(EntryHash, Entry)>, nodes: Map<Seq<u8>, NodeView>) -> bool {
    &&& forall|i: int|
        0 <= i < listing.len() ==> frontier(nodes).contains(#[trigger] listing[i].0@)
            && listing[i].1@ == nodes[listing[i].0@].1
    &&& forall|hash: Seq<u8>|
        frontier(nodes).contains(hash) ==> exists|i: int|
            0 <= i < listing.len() && #[trigger] listing[i].0@ == hash
    &&& forall|i: int, j: int|
        0 <= i < j < listing.len() ==> lex_less(#[trigger] listing[i].0@, #[trigger] listing[j].0@)
}

/// Whether `entries` are the nodes of the DAG of `nodes`, each once.
pub open spec fn lists_dag(entries: Seq<MerkleDagEntry>, nodes: Map<Seq<u8>, NodeView>) -> bool {
    &&& forall|i: int|
        0 <= i < entries.len() ==> visible(nodes).contains(
            node_hash((#[trigger] entries[i])@.0, entries[i]@.1),
        ) && nodes[node_hash(entries[i]@.0, entries[i]@.1)] == entries[i]@
    &&& forall|hash: Seq<u8>|
        visible(nodes).contains(hash) ==> exists|i: int|
            0 <= i < entries.len() && node_hash((#[trigger] entries[i])@.0, entries[i]@.1) == hash
    &&& forall|i: int, j: int|
        #![trigger entries[i], entries[j]]
        0 <= i < j < entries.len() ==> node_hash(entries[i]@.0, entries[i]@.1) != node_hash(
            entries[j]@.0,
            entries[j]@.1,
        )
}

/// The nodes after the nodes of a list have come one after the other.
pub open spec fn with_nodes(nodes: Map<Seq<u8>, NodeView>, added: Seq<MerkleDagEntry>) -> Map<Seq<u8>, NodeView>
    decreases added.len(),
{
    if added.len() == 0 {
        nodes
    } else {
        with_node(with_nodes(nodes, added.drop_last()), added.last()@)
    }
}

/// The hashes of a listing, in its order.
pub open spec fn listed_hashes(listing: Seq<(EntryHash, Entry)>) -> Seq<Seq<u8>> {
    Seq::new(listing.len(), |i: int| listing[i].0@)
}

/// A listing of the frontier has as many items as the frontier has
/// entries, and names each of them once.
pub proof fn lemma_listing_counts(listing: Seq<(EntryHash, Entry)>, nodes: Map<Seq<u8>, NodeView>)
    requires
        lists_frontier(listing, nodes),
    ensures
        frontier(nodes).finite(),
        frontier(nodes).len() == listing.len(),
        listed_hashes(listing).no_duplicates(),
        listed_hashes(listing).to_set() == frontier(nodes),
{
    let hashes = listed_hashes(listing);
    assert forall|i: int, j: int| 0 <= i < hashes.len() && 0 <= j < hashes.len() && i != j implies hashes[i]
        != hashes[j] by {
        if i < j {
            assert(lex_less(listing[i].0@, listing[j].0@));
        } else {
            assert(lex_less(listing[j].0@, listing[i].0@));
        }
        crate::octets::lemma_lex_irreflexive(hashes[i]);
    }
    assert forall|hash: Seq<u8>| hashes.to_set().contains(hash) <==> frontier(nodes).contains(hash) by {
        if hashes.to_set().contains(hash) {
            let i = choose|i: int| 0 <= i < hashes.len() && hashes[i] == hash;
            assert(frontier(nodes).contains(listing[i].0@));
        }
        if frontier(nodes).contains(hash) {
            let i = choose|i: int| 0 <= i < listing.len() && #[trigger] listing[i].0@ == hash;
            assert(hashes[i] == hash);
        }
    }
    assert(hashes.to_set() =~= frontier(nodes));
    hashes.unique_seq_to_set();
    vstd::seq_lib::seq_to_set_is_finite(hashes);
}

/// The hashes of a listing of the frontier: as a set, the frontier.
pub fn hashes_of(listing: &Vec<(EntryHash, Entry)>) -> (hashes: Vec<EntryHash>)
    ensures
        hashes@.len() == listing@.len(),
        forall|i: int| 0 <= i < hashes@.len() ==> hashes@[i] == listing@[i].0,
        hash_set(hashes@) == listed_hashes(listing@).to_set(),
{
    let mut hashes: Vec<EntryHash> = Vec::new();
    let mut i: usize = 0;
    while i < listing.len()
        invariant
            i <= listing.len(),
            hashes@.len() == i,
            forall|j: int| 0 <= j < i ==> hashes@[j] == listing@[j].0,
        decreases listing.len() - i,
    {
        hashes.push(listing[i].0);
        i += 1;
    }
    proof {
        let listed = listed_hashes(listing@);
        assert forall|hash: Seq<u8>| hash_set(hashes@).contains(hash) <==> listed.to_set().contains(hash) by {
            if hash_set(hashes@).contains(hash) {
                let k = choose|k: int| 0 <= k < hashes@.len() && hashes@[k]@ == hash;
                assert(listed[k] == hash);
            }
            if listed.to_set().contains(hash) {
                let k = choose|k: int| 0 <= k < listed.len() && listed[k] == hash;
                assert(hashes@[k]@ == hash);
            }
        }
    }
    hashes
}

/// Whether the DAG of `nodes` has `count` nodes.
pub open spec fn counts_visible(count: nat, nodes: Map<Seq<u8>, NodeView>) -> bool {
    visible(nodes).finite() && visible(nodes).len() == count
}

/// `Clone` of `crdts::merkle_reg::MerkleReg`: the copy is the same register.
pub assume_specification<T: Clone>[ <crdts::merkle_reg::MerkleReg<T> as Clone>::clone ](
    reg: &crdts::merkle_reg::MerkleReg<T>,
) -> (copy: crdts::merkle_reg::MerkleReg<T>)
    ensures
        copy == *reg,
;

/// Calls `crdts::merkle_reg::MerkleReg::new`: a register without nodes.
#[verifier::external_body]
fn dag_new() -> (reg: crdts::merkle_reg::MerkleReg<Vec<u8>>)
    ensures
        merkle_nodes(reg) == no_nodes(),
{
    crdts::merkle_reg::MerkleReg::new()
}

/// Builds a `crdts::merkle_reg::Node` from the entry and calls its `hash`.
/// The node holds its children as a set, so the hash depends on the set of
/// children and on the value alone.
#[verifier::external_body]
fn dag_hash(node: &MerkleDagEntry) -> (hash: EntryHash)
    ensures
        hash@ == node_hash(node@.0, node@.1),
{
    let children = node.children.iter().map(|child| child.0).collect();
    EntryHash(crdts::merkle_reg::Node { children, value: node.value.clone() }.hash())
}

/// Builds a `crdts::merkle_reg::Node` from the entry and calls
/// `crdts::CmRDT::apply` on the register. A node whose hash the register
/// holds already is dropped; any other is kept under its hash, in the DAG once
/// all its descendants have come, aside until then.
#[verifier::external_body]
fn dag_apply(reg: &mut crdts::merkle_reg::MerkleReg<Vec<u8>>, node: &MerkleDagEntry)
    ensures
        merkle_nodes(*final(reg)) == with_node(merkle_nodes(*old(reg)), node@),
{
    let children = node.children.iter().map(|child| child.0).collect();
    crdts::CmRDT::apply(reg, crdts::merkle_reg::Node { children, value: node.value.clone() });
}

/// Calls `crdts::CvRDT::merge` with a copy of `other`, which applies every
/// node that `other` holds: the register then holds its own nodes and, under
/// the hashes it did not hold, those of `other`.
#[verifier::external_body]
fn dag_merge(reg: &mut crdts::merkle_reg::MerkleReg<Vec<u8>>, other: &crdts::merkle_reg::MerkleReg<Vec<u8>>)
    ensures
        merkle_nodes(*final(reg)) == merkle_nodes(*other).union_prefer_right(merkle_nodes(*old(reg))),
{
    crdts::CvRDT::merge(reg, other.clone());
}

/// Calls `crdts::merkle_reg::MerkleReg::read` and copies out each hash with
/// its value, in the ascending order of hashes in which the content is
/// walked. The content is the DAG's roots: its nodes that no node of the DAG
/// has as a child.
#[verifier::external_body]
fn dag_read(reg: &crdts::merkle_reg::MerkleReg<Vec<u8>>) -> (listing: Vec<(EntryHash, Entry)>)
    ensures
        lists_frontier(listing@, merkle_nodes(*reg)),
{
    reg.read().hashes_and_nodes().map(|(hash, node)| (EntryHash(hash), node.value.clone())).collect()
}

/// Calls `crdts::merkle_reg::MerkleReg::all_nodes`, which walks the nodes of
/// the DAG, and copies each out with its children in ascending order. The
/// nodes that are kept aside are not among them.
#[verifier::external_body]
fn dag_entries(reg: &crdts::merkle_reg::MerkleReg<Vec<u8>>) -> (entries: Vec<MerkleDagEntry>)
    ensures
        lists_dag(entries@, merkle_nodes(*reg)),
{
    reg.all_nodes().map(|node| MerkleDagEntry {
        children: node.children.iter().map(|child| EntryHash(*child)).collect(),
        value: node.value.clone(),
    }).collect()
}

/// Calls `crdts::merkle_reg::MerkleReg::num_nodes`: the number of nodes in
/// the DAG, without those kept aside.
#[verifier::external_body]
fn dag_len(reg: &crdts::merkle_reg::MerkleReg<Vec<u8>>) -> (count: usize)
    ensures
        counts_visible(count as nat, merkle_nodes(*reg)),
{
    reg.num_nodes()
}

/// Calls `crdts::merkle_reg::MerkleReg::node`, which finds a node by its
/// hash among all that the register holds, and hands out the node's value.
#[verifier::external_body]
fn dag_get<'a>(reg: &'a crdts::merkle_reg::MerkleReg<Vec<u8>>, hash: &EntryHash) -> (value: Option<&'a Entry>)
    ensures
        value is Some == merkle_nodes(*reg).dom().contains(hash@),
        value matches Some(entry) ==> entry@ == merkle_nodes(*reg)[hash@].1,
{
    reg.node(hash.0).map(|node| &node.value)
}

/// Whether an operation may be applied to a register at `reg_addr` whose
/// owner and grants are given, where `signed_bytes` are the bytes that the
/// operation's signature has to cover: the first check that fails gives the
/// error.
pub open spec fn op_verdict(
    owner: User,
    reg_addr: RegisterAddress,
    grants: Map<User, UserRights>,
    op: RegisterOp,
    signed_bytes: Seq<u8>,
) -> Result<(), ProtocolError> {
    if op.address != reg_addr {
        Err(ProtocolError::RegisterAddressMismatch { dst_addr: op.address, reg_addr })
    } else if !(op.source == owner || grants_write(grants, op.source)) {
        Err(ProtocolError::AccessDenied(op.source))
    } else {
        signature_verdict(op.source, op.signature, signed_bytes)
    }
}

/// Whether a signature stands for `source` over `signed_bytes`: it has to be
/// there, the source has to be a key, and the signature has to verify under
/// that key.
pub open spec fn signature_verdict(source: User, signature: Option<Signature>, signed_bytes: Seq<u8>) -> Result<
    (),
    ProtocolError,
> {
    match signature {
        None => Err(ProtocolError::MissingSignature),
        Some(sig) => match source {
            User::Key(key) => if bls_verifies(key@, sig@, signed_bytes) {
                Ok(())
            } else {
                Err(ProtocolError::InvalidSignature)
            },
            User::Anyone => Err(ProtocolError::InvalidSignature),
        },
    }
}

/// An operation on a register, to be applied to every replica: a node of the
/// DAG, the register it is for, who made it, and the maker's signature.
#[derive(Debug, PartialEq, Eq, PartialOrd, Ord, Hash)]
pub struct RegisterOp {
    /// The address of the register.
    pub address: RegisterAddress,
    /// The node to add to the DAG.
    pub crdt_op: MerkleDagEntry,
    /// Who made the operation.
    pub source: User,
    /// The signature of the source over the operation. An operation made
    /// locally has none until it is signed.
    pub signature: Option<Signature>,
}

impl Clone for RegisterOp {
    fn clone(&self) -> (copy: RegisterOp)
        ensures
            copy.address == self.address,
            copy.crdt_op.children@ == self.crdt_op.children@,
            copy.crdt_op.value@ == self.crdt_op.value@,
            copy.crdt_op@ == self.crdt_op@,
            copy.source == self.source,
            copy.signature == self.signature,
    {
        RegisterOp {
            address: self.address,
            crdt_op: self.crdt_op.clone(),
            source: self.source,
            signature: self.signature,
        }
    }
}

/// The bytes that stand for a source: a zero byte for anyone; a one and the
/// bytes of the key for the holder of a key.
pub open spec fn source_bytes(source: User) -> Seq<u8> {
    match source {
        User::Anyone => seq![0u8],
        User::Key(key) => seq![1u8] + key@,
    }
}

/// The bytes that are hashed for a signature: the register's name, its tag
/// most significant byte first, the hash of the node, and the source.
pub open spec fn signing_input(address: RegisterAddress, node: Seq<u8>, source: User) -> Seq<u8> {
    address.identity() + node + source_bytes(source)
}

/// The number that `std::collections::hash_map::DefaultHasher` gives for a
/// byte string: a new hasher, one `write` of the bytes, and `finish`. A new
/// hasher is not seeded, so the number depends on the bytes alone.
pub uninterp spec fn default_hash_of(bytes: Seq<u8>) -> u64;

/// Hashes a byte string with `std::collections::hash_map::DefaultHasher`:
/// a new hasher, one `write` of the bytes, and `finish`. The algorithm is not
/// specified, so the number only has a name.
#[verifier::external_body]
fn default_hash(bytes: &Vec<u8>) -> (digest: u64)
    ensures
        digest == default_hash_of(bytes@),
{
    let mut hasher = std::collections::hash_map::DefaultHasher::new();
    std::hash::Hasher::write(&mut hasher, bytes);
    std::hash::Hasher::finish(&hasher)
}

/// Calls `u64::to_ne_bytes`: the eight bytes of the number in the machine's
/// byte order, which is one of the two.
#[verifier::external_body]
fn native_bytes(value: u64) -> (bytes: Vec<u8>)
    ensures
        bytes@.len() == 8,
        in_a_byte_order(value, bytes@),
{
    value.to_ne_bytes().to_vec()
}

/// Whether `bytes` are what a signature covers for the given address, node
/// hash and source: the hash of their signing input, in one of the two byte
/// orders.
pub open spec fn signing_bytes(address: RegisterAddress, node: Seq<u8>, source: User, bytes: Seq<u8>) -> bool {
    in_a_byte_order(default_hash_of(signing_input(address, node, source)), bytes)
}

impl RegisterOp {
    /// The operation with the given parts.
    pub fn new(address: RegisterAddress, crdt_op: MerkleDagEntry, source: User, signature: Option<Signature>) -> (op:
        RegisterOp)
        ensures
            op.address == address,
            op.crdt_op == crdt_op,
            op.source == source,
            op.signature == signature,
    {
        RegisterOp { address, crdt_op, source, signature }
    }

    /// The address of the register that the operation is for.
    pub fn address(&self) -> (address: RegisterAddress)
        ensures
            address == self.address,
    {
        self.address
    }

    /// Who made the operation.
    pub fn source(&self) -> (source: User)
        ensures
            source == self.source,
    {
        self.source
    }

    /// Whether `bytes` are what a signature of this operation covers: the
    /// hash of its signing input, in one of the two byte orders.
    pub open spec fn signs_over(&self, bytes: Seq<u8>) -> bool {
        signing_bytes(self.address, node_hash(self.crdt_op@.0, self.crdt_op@.1), self.source, bytes)
    }

    /// The bytes that a signature of this operation covers on a machine of
    /// the given byte order.
    pub open spec fn signed_bytes(&self, little_endian: bool) -> Seq<u8> {
        let digest = default_hash_of(
            signing_input(self.address, node_hash(self.crdt_op@.0, self.crdt_op@.1), self.source),
        );
        if little_endian {
            le_bytes(digest)
        } else {
            be_bytes(digest)
        }
    }

    /// Signs the operation with a secret key: the source becomes the key's
    /// public counterpart, and the signature is the key's over the bytes for
    /// signing of the operation with that source. The node and the address
    /// stay.
    pub fn sign_with(&mut self, sk: &blsttc::SecretKey)
        ensures
            final(self).source matches User::Key(key) && key@ == bls_public_key_of(*sk),
            exists|bytes: Seq<u8>|
                final(self).signs_over(bytes) && (final(self).signature matches Some(signature) && signature@
                    == #[trigger] bls_signature_of(*sk, bytes)),
            final(self).address == old(self).address,
            final(self).crdt_op == old(self).crdt_op,
    {
        self.source = User::Key(public_key_of(sk));
        let bytes = self.bytes_for_signing();
        self.signature = Some(sign_bytes(sk, &bytes));
    }

    /// Puts a signature made elsewhere on the operation, with the key that
    /// made it as the source. It always succeeds.
    pub fn add_signature(&mut self, public_key: PublicKey, signature: Signature) -> (result: Result<(), ProtocolError>)
        ensures
            result is Ok,
            final(self).source == User::Key(public_key),
            final(self).signature == Some(signature),
            final(self).address == old(self).address,
            final(self).crdt_op == old(self).crdt_op,
    {
        self.source = User::Key(public_key);
        self.signature = Some(signature);
        Ok(())
    }

    /// The bytes that are hashed for a signature of this operation: the
    /// register's name, its tag most significant byte first, the hash of the
    /// node, and the source.
    pub fn signing_input(&self) -> (bytes: Vec<u8>)
        ensures
            bytes@ == signing_input(self.address, node_hash(self.crdt_op@.0, self.crdt_op@.1), self.source),
    {
        let mut bytes = self.address.identity_bytes();
        let node = dag_hash(&self.crdt_op);
        append_array(&mut bytes, &node.0);
        match &self.source {
            User::Anyone => {
                bytes.push(0u8);
            },
            User::Key(key) => {
                bytes.push(1u8);
                append_array(&mut bytes, &key.0);
            },
        }
        assert(bytes@ =~= signing_input(
            self.address,
            node_hash(self.crdt_op@.0, self.crdt_op@.1),
            self.source,
        ));
        bytes
    }

    /// The bytes that a signature of this operation covers: the 64-bit hash
    /// of the operation's signing input, in the machine's byte order.
    pub fn bytes_for_signing(&self) -> (bytes: Vec<u8>)
        ensures
            bytes@.len() == 8,
            self.signs_over(bytes@),
    {
        native_bytes(default_hash(&self.signing_input()))
    }

    /// Checks the operation's signature over `signed_bytes` against a key:
    /// `MissingSignature` where there is none, `InvalidSignature` where it
    /// does not verify under `pk`.
    pub fn verify_signature_over(&self, pk: &PublicKey, signed_bytes: &Vec<u8>) -> (result: Result<
        (),
        ProtocolError,
    >)
        ensures
            result == signature_verdict(User::Key(*pk), self.signature, signed_bytes@),
            result is Ok <==> (self.signature matches Some(sig) && bls_verifies(pk@, sig@, signed_bytes@)),
    {
        match &self.signature {
            None => Err(ProtocolError::MissingSignature),
            Some(sig) => {
                if verify_bytes(pk, sig, signed_bytes) {
                    Ok(())
                } else {
                    Err(ProtocolError::InvalidSignature)
                }
            },
        }
    }

    /// Checks the operation's signature against a key, over the operation's
    /// bytes for signing: the outcome is that of `verify_signature_over` with
    /// those bytes.
    pub fn verify_signature(&self, pk: &PublicKey) -> (result: Result<(), ProtocolError>)
        ensures
            exists|signed_bytes: Seq<u8>|
                self.signs_over(signed_bytes) && result == #[trigger] signature_verdict(
                    User::Key(*pk),
                    self.signature,
                    signed_bytes,
                ),
    {
        let bytes = self.bytes_for_signing();
        self.verify_signature_over(pk, &bytes)
    }
}

/// A register: an owner, a name and a tag that together are its identity,
/// permissions, and the DAG of its entries.
#[derive(Debug, Clone, PartialEq, Eq)]
pub struct Register {
    owner: User,
    address: RegisterAddress,
    permissions: Permissions,
    crdt: crdts::merkle_reg::MerkleReg<Vec<u8>>,
}

impl Register {
    /// The owner.
    pub closed spec fn spec_owner(&self) -> User {
        self.owner
    }

    /// The address: name and tag.
    pub closed spec fn spec_address(&self) -> RegisterAddress {
        self.address
    }

    /// The grants of the permissions.
    pub closed spec fn spec_permissions(&self) -> Map<User, UserRights> {
        self.permissions@
    }

    /// Every node that the register has received, by its hash.
    pub closed spec fn nodes(&self) -> Map<Seq<u8>, NodeView> {
        merkle_nodes(self.crdt)
    }

    /// Whether `user` may write to the register: the owner always may, and
    /// whoever the permissions let.
    pub open spec fn may_write(&self, user: User) -> bool {
        user == self.spec_owner() || grants_write(self.spec_permissions(), user)
    }

    /// Whether the two registers have one identity, one owner and the same
    /// permissions.
    pub open spec fn compatible(&self, other: &Register) -> bool {
        &&& self.spec_owner() == other.spec_owner()
        &&& self.spec_address() == other.spec_address()
        &&& self.spec_permissions() == other.spec_permissions()
    }

    /// Whether the two registers have one identity, one owner, the same
    /// permissions and the same nodes.
    pub open spec fn alike(&self, other: &Register) -> bool {
        self.compatible(other) && self.nodes() == other.nodes()
    }

    /// A register without entries.
    pub fn new(owner: User, name: XorName, tag: u64, permissions: Permissions) -> (register: Register)
        ensures
            register.spec_owner() == owner,
            register.spec_address() == (RegisterAddress { name, tag }),
            register.spec_permissions() == permissions@,
            register.nodes() == no_nodes(),
    {
        Register { owner, address: RegisterAddress::new(name, tag), permissions, crdt: dag_new() }
    }

    /// A register that holds the given entries: each is taken in as it
    /// comes, without a check of who wrote it. This is how a replica that
    /// came over the wire is rebuilt.
    pub fn with_entries(
        owner: User,
        name: XorName,
        tag: u64,
        permissions: Permissions,
        entries: &Vec<MerkleDagEntry>,
    ) -> (register: Register)
        ensures
            register.spec_owner() == owner,
            register.spec_address() == (RegisterAddress { name, tag }),
            register.spec_permissions() == permissions@,
            register.nodes() == with_nodes(no_nodes(), entries@),
    {
        let mut crdt = dag_new();
        let mut i: usize = 0;
        while i < entries.len()
            invariant
                i <= entries.len(),
                merkle_nodes(crdt) == with_nodes(no_nodes(), entries@.take(i as int)),
            decreases entries.len() - i,
        {
            proof {
                assert(entries@.take(i + 1).drop_last() =~= entries@.take(i as int));
            }
            dag_apply(&mut crdt, &entries[i]);
            i += 1;
        }
        assert(entries@.take(entries.len() as int) =~= entries@);
        Register { owner, address: RegisterAddress::new(name, tag), permissions, crdt }
    }

    /// The entries of the DAG, each once, with the hashes of the entries it
    /// was written atop.
    pub fn entries(&self) -> (entries: Vec<MerkleDagEntry>)
        ensures
            lists_dag(entries@, self.nodes()),
    {
        dag_entries(&self.crdt)
    }

    /// A copy of the register.
    pub fn duplicate(&self) -> (copy: Register)
        ensures
            copy.alike(self),
    {
        Register {
            owner: self.owner,
            address: self.address,
            permissions: self.permissions.clone(),
            crdt: self.crdt.clone(),
        }
    }

    /// The owner of the register.
    pub fn owner(&self) -> (owner: User)
        ensures
            owner == self.spec_owner(),
    {
        self.owner
    }

    /// The permissions of the register.
    pub fn permissions(&self) -> (permissions: &Permissions)
        ensures
            permissions@ == self.spec_permissions(),
    {
        &self.permissions
    }

    /// The name of the register.
    pub fn name(&self) -> (name: &XorName)
        ensures
            *name == self.spec_address().name,
    {
        &self.address.name
    }

    /// The tag of the register.
    pub fn tag(&self) -> (tag: u64)
        ensures
            tag == self.spec_address().tag,
    {
        self.address.tag
    }

    /// The address of the register.
    pub fn address(&self) -> (address: &RegisterAddress)
        ensures
            *address == self.spec_address(),
    {
        &self.address
    }

    /// The number of entries in the DAG.
    pub fn size(&self) -> (size: u64)
        ensures
            counts_visible(size as nat, self.nodes()),
    {
        dag_len(&self.crdt) as u64
    }

    /// The entry with the given hash: `NoSuchEntry` where the register has
    /// received none.
    pub fn get(&self, hash: EntryHash) -> (entry: Result<&Entry, ProtocolError>)
        ensures
            entry is Ok <==> self.nodes().dom().contains(hash@),
            entry matches Ok(value) ==> value@ == self.nodes()[hash@].1,
            entry matches Err(error) ==> error == ProtocolError::NoSuchEntry(hash),
    {
        match dag_get(&self.crdt, &hash) {
            Some(value) => Ok(value),
            None => Err(ProtocolError::NoSuchEntry(hash)),
        }
    }

    /// The frontier: the latest entry, or the latest entries where there are
    /// branches, each with its hash, in ascending order of hash.
    pub fn read(&self) -> (listing: Vec<(EntryHash, Entry)>)
        ensures
            lists_frontier(listing@, self.nodes()),
    {
        dag_read(&self.crdt)
    }

    /// Whether `requester` may do `action`: anyone may read; the owner may
    /// write, and whoever the permissions let.
    pub fn check_user_rights(&self, action: Action, requester: User) -> (result: Result<(), ProtocolError>)
        ensures
            result is Ok <==> (action == Action::Read || self.may_write(requester)),
            result matches Err(error) ==> error == ProtocolError::AccessDenied(requester),
    {
        match action {
            Action::Read => Ok(()),
            Action::Write => {
                if requester.equals(&self.owner) || self.permissions.allows_write(&requester) {
                    Ok(())
                } else {
                    Err(ProtocolError::AccessDenied(requester))
                }
            },
        }
    }

    /// Writes an entry atop the entries with the given hashes: the new node
    /// has exactly these as its children. It hands back the node's hash and
    /// the operation that brings the node to other replicas, not yet signed.
    /// `AccessDenied` where the requester may not write.
    pub fn write(&mut self, entry: Entry, children: Vec<EntryHash>, requester: User) -> (result: Result<
        (EntryHash, RegisterOp),
        ProtocolError,
    >)
        ensures
            final(self).compatible(old(self)),
            result is Ok <==> old(self).may_write(requester),
            result matches Err(error) ==> error == ProtocolError::AccessDenied(requester) && final(self).nodes()
                == old(self).nodes(),
            result matches Ok(written) ==> {
                &&& written.0@ == node_hash(hash_set(children@), entry@)
                &&& written.1.address == old(self).spec_address()
                &&& written.1.crdt_op.children@ == children@
                &&& written.1.crdt_op.value@ == entry@
                &&& written.1.source == requester
                &&& written.1.signature is None
                &&& final(self).nodes() == with_node(old(self).nodes(), (hash_set(children@), entry@))
            },
    {
        match self.check_user_rights(Action::Write, requester) {
            Err(error) => Err(error),
            Ok(()) => {
                let crdt_op = MerkleDagEntry { children, value: entry };
                let hash = dag_hash(&crdt_op);
                dag_apply(&mut self.crdt, &crdt_op);
                Ok((hash, RegisterOp::new(self.address, crdt_op, requester, None)))
            },
        }
    }

    /// Applies an operation whose signature has to cover `signed_bytes`:
    /// the operation has to be for this register, its source has to have the
    /// right to write, and its signature has to verify under the source's
    /// key. The node then joins the register; one that is there already
    /// changes nothing.
    pub fn apply_op_over(&mut self, op: &RegisterOp, signed_bytes: &Vec<u8>) -> (result: Result<(), ProtocolError>)
        ensures
            final(self).compatible(old(self)),
            result == op_verdict(
                old(self).spec_owner(),
                old(self).spec_address(),
                old(self).spec_permissions(),
                *op,
                signed_bytes@,
            ),
            final(self).nodes() == after_op(
                old(self).spec_owner(),
                old(self).spec_address(),
                old(self).spec_permissions(),
                old(self).nodes(),
                *op,
                signed_bytes@,
            ),
    {
        if !op.address.equals(&self.address) {
            return Err(ProtocolError::RegisterAddressMismatch { dst_addr: op.address, reg_addr: self.address });
        }
        match self.check_user_rights(Action::Write, op.source) {
            Err(error) => {
                return Err(error);
            },
            Ok(()) => {},
        }
        let checked = match op.source {
            User::Key(key) => op.verify_signature_over(&key, signed_bytes),
            User::Anyone => match op.signature {
                None => Err(ProtocolError::MissingSignature),
                Some(_) => Err(ProtocolError::InvalidSignature),
            },
        };
        match checked {
            Err(error) => Err(error),
            Ok(()) => {
                dag_apply(&mut self.crdt, &op.crdt_op);
                Ok(())
            },
        }
    }

    /// Applies an operation, its signature checked over the operation's bytes
    /// for signing: the outcome is that of `apply_op_over` with those bytes.
    pub fn apply_op(&mut self, op: &RegisterOp) -> (result: Result<(), ProtocolError>)
        ensures
            final(self).compatible(old(self)),
            exists|signed_bytes: Seq<u8>|
                {
                    &&& op.signs_over(signed_bytes)
                    &&& result == #[trigger] op_verdict(
                        old(self).spec_owner(),
                        old(self).spec_address(),
                        old(self).spec_permissions(),
                        *op,
                        signed_bytes,
                    )
                    &&& final(self).nodes() == after_op(
                        old(self).spec_owner(),
                        old(self).spec_address(),
                        old(self).spec_permissions(),
                        old(self).nodes(),
                        *op,
                        signed_bytes,
                    )
                },
    {
        let bytes = op.bytes_for_signing();
        self.apply_op_over(op, &bytes)
    }

    /// Merges another replica into this one: the register then holds the
    /// nodes of both. Where both hold a node under one hash, this replica's
    /// stays.
    pub fn merge(&mut self, other: &Register)
        ensures
            final(self).compatible(old(self)),
            final(self).nodes() == merged(old(self).nodes(), other.nodes()),
    {
        dag_merge(&mut self.crdt, &other.crdt);
    }
}

/// The nodes of a replica after another has been merged into it: the nodes
/// of both. Where both hold a node under one hash, the replica's own stays.
pub open spec fn merged(own: Map<Seq<u8>, NodeView>, other: Map<Seq<u8>, NodeView>) -> Map<Seq<u8>, NodeView> {
    other.union_prefer_right(own)
}

/// Whether two replicas hold the same node wherever both hold one under a
/// hash.
pub open spec fn agree(one: Map<Seq<u8>, NodeView>, other: Map<Seq<u8>, NodeView>) -> bool {
    forall|hash: Seq<u8>| one.dom().contains(hash) && other.dom().contains(hash) ==> one[hash] == other[hash]
}

/// Merge is idempotent and associative, and it is commutative for replicas
/// that hold the same node wherever both hold one under a hash.
pub proof fn lemma_merge_laws(a: Map<Seq<u8>, NodeView>, b: Map<Seq<u8>, NodeView>, c: Map<Seq<u8>, NodeView>)
    ensures
        merged(a, a) == a,
        merged(merged(a, b), c) == merged(a, merged(b, c)),
        agree(a, b) ==> merged(a, b) == merged(b, a),
{
    if agree(a, b) {
        assert(merged(a, b) =~= merged(b, a));
    }
}

/// Whether no node of the map names the hash as a child.
pub open spec fn unnamed(nodes: Map<Seq<u8>, NodeView>, hash: Seq<u8>) -> bool {
    forall|parent: Seq<u8>| nodes.dom().contains(parent) ==> !(#[trigger] nodes[parent]).0.contains(hash)
}

/// Entries that were written atop nothing are all branches: where no node
/// has a child, every node is in the DAG and in the frontier.
pub proof fn lemma_roots_are_the_frontier(nodes: Map<Seq<u8>, NodeView>)
    requires
        forall|hash: Seq<u8>| nodes.dom().contains(hash) ==> (#[trigger] nodes[hash]).0 == Set::<Seq<u8>>::empty(),
    ensures
        visible(nodes) == nodes.dom(),
        frontier(nodes) == nodes.dom(),
{
    assert forall|hash: Seq<u8>| nodes.dom().contains(hash) implies visible(nodes).contains(hash) by {
        assert(nodes[hash].0 == Set::<Seq<u8>>::empty());
        assert(grounded(nodes, hash, 1));
    }
    assert forall|hash: Seq<u8>| visible(nodes).contains(hash) implies nodes.dom().contains(hash) by {
        let depth = choose|depth: nat| grounded(nodes, hash, depth);
        assert(grounded(nodes, hash, depth));
    }
    assert(visible(nodes) =~= nodes.dom());
    assert forall|hash: Seq<u8>| nodes.dom().contains(hash) implies frontier(nodes).contains(hash) by {
        assert forall|parent: Seq<u8>| visible(nodes).contains(parent) implies !(#[trigger] nodes[parent]).0.contains(
            hash,
        ) by {
            assert(nodes[parent].0 == Set::<Seq<u8>>::empty());
        }
    }
    assert(frontier(nodes) =~= nodes.dom());
}

/// A node that is in the DAG stays there when a node comes under a hash
/// that the map did not hold.
proof fn lemma_grounded_stays(
    nodes: Map<Seq<u8>, NodeView>,
    hash: Seq<u8>,
    node: NodeView,
    held: Seq<u8>,
    depth: nat,
)
    requires
        !nodes.dom().contains(hash),
        grounded(nodes, held, depth),
    ensures
        grounded(nodes.insert(hash, node), held, depth),
    decreases depth,
{
    let after = nodes.insert(hash, node);
    assert(after[held] == nodes[held]);
    assert forall|child: Seq<u8>| #[trigger] after[held].0.contains(child) implies grounded(
        after,
        child,
        (depth - 1) as nat,
    ) by {
        assert(nodes[held].0.contains(child));
        lemma_grounded_stays(nodes, hash, node, child, (depth - 1) as nat);
    }
}

/// A node that no node names brings no other node into the DAG.
proof fn lemma_grounded_before(
    nodes: Map<Seq<u8>, NodeView>,
    hash: Seq<u8>,
    node: NodeView,
    held: Seq<u8>,
    depth: nat,
)
    requires
        !nodes.dom().contains(hash),
        unnamed(nodes, hash),
        held != hash,
        grounded(nodes.insert(hash, node), held, depth),
    ensures
        grounded(nodes, held, depth),
    decreases depth,
{
    let after = nodes.insert(hash, node);
    assert(after[held] == nodes[held]);
    assert forall|child: Seq<u8>| #[trigger] nodes[held].0.contains(child) implies grounded(
        nodes,
        child,
        (depth - 1) as nat,
    ) by {
        assert(after[held].0.contains(child));
        lemma_grounded_before(nodes, hash, node, child, (depth - 1) as nat);
    }
}

/// A node that is reached within some number of steps is reached within any
/// greater number.
proof fn lemma_grounded_deeper(nodes: Map<Seq<u8>, NodeView>, held: Seq<u8>, depth: nat, deeper: nat)
    requires
        grounded(nodes, held, depth),
        depth <= deeper,
    ensures
        grounded(nodes, held, deeper),
    decreases depth,
{
    assert forall|child: Seq<u8>| #[trigger] nodes[held].0.contains(child) implies grounded(
        nodes,
        child,
        (deeper - 1) as nat,
    ) by {
        lemma_grounded_deeper(nodes, child, (depth - 1) as nat, (deeper - 1) as nat);
    }
}

/// The nodes of a finite part of the DAG are all reached within one number
/// of steps.
proof fn lemma_common_depth(nodes: Map<Seq<u8>, NodeView>, part: Set<Seq<u8>>) -> (depth: nat)
    requires
        part.finite(),
        part.subset_of(visible(nodes)),
    ensures
        forall|held: Seq<u8>| part.contains(held) ==> grounded(nodes, held, depth),
    decreases part.len(),
{
    if part.is_empty() {
        0
    } else {
        let one = part.choose();
        let rest = lemma_common_depth(nodes, part.remove(one));
        assert(visible(nodes).contains(one));
        let own = choose|own: nat| grounded(nodes, one, own);
        let depth = if own <= rest {
            rest
        } else {
            own
        };
        assert forall|held: Seq<u8>| part.contains(held) implies grounded(nodes, held, depth) by {
            if held == one {
                lemma_grounded_deeper(nodes, one, own, depth);
            } else {
                assert(part.remove(one).contains(held));
                lemma_grounded_deeper(nodes, held, rest, depth);
            }
        }
        depth
    }
}

/// A write atop the whole frontier merges the branches: the new entry is
/// then the only one of the frontier, and the DAG has one entry more. This
/// holds where the register does not hold the new node yet and no node that
/// it holds names the new node's hash.
pub proof fn lemma_merging_write(nodes: Map<Seq<u8>, NodeView>, entry: Seq<u8>)
    requires
        visible(nodes).finite(),
        !nodes.dom().contains(node_hash(frontier(nodes), entry)),
        unnamed(nodes, node_hash(frontier(nodes), entry)),
    ensures
        frontier(with_node(nodes, (frontier(nodes), entry))) == set![node_hash(frontier(nodes), entry)],
        visible(with_node(nodes, (frontier(nodes), entry))) == visible(nodes).insert(
            node_hash(frontier(nodes), entry),
        ),
        visible(with_node(nodes, (frontier(nodes), entry))).len() == visible(nodes).len() + 1,
{
    let atop = frontier(nodes);
    let hash = node_hash(atop, entry);
    let node = (atop, entry);
    let after = with_node(nodes, node);
    assert(after == nodes.insert(hash, node));
    assert(atop.subset_of(visible(nodes)));
    vstd::set_lib::lemma_len_subset(atop, visible(nodes));
    let depth = lemma_common_depth(nodes, atop);
    assert forall|child: Seq<u8>| #[trigger] after[hash].0.contains(child) implies grounded(after, child, depth) by {
        lemma_grounded_stays(nodes, hash, node, child, depth);
    }
    assert(grounded(after, hash, depth + 1));
    assert forall|held: Seq<u8>| visible(after).contains(held) <==> visible(nodes).insert(hash).contains(held) by {
        if visible(after).contains(held) && held != hash {
            let d = choose|d: nat| grounded(after, held, d);
            lemma_grounded_before(nodes, hash, node, held, d);
        }
        if visible(nodes).contains(held) {
            let d = choose|d: nat| grounded(nodes, held, d);
            lemma_grounded_stays(nodes, hash, node, held, d);
        }
    }
    assert(visible(after) =~= visible(nodes).insert(hash));
    assert(!visible(nodes).contains(hash)) by {
        if visible(nodes).contains(hash) {
            let d = choose|d: nat| grounded(nodes, hash, d);
            assert(grounded(nodes, hash, d));
        }
    }
    assert forall|held: Seq<u8>| frontier(after).contains(held) <==> held == hash by {
        if held == hash {
            assert forall|parent: Seq<u8>| visible(after).contains(parent) implies !(#[trigger] after[parent]).0.contains(
                hash,
            ) by {
                if parent == hash {
                    assert(!atop.contains(hash));
                } else {
                    let d = choose|d: nat| grounded(nodes, parent, d);
                    assert(nodes.dom().contains(parent));
                    assert(after[parent] == nodes[parent]);
                }
            }
        } else if visible(nodes).contains(held) {
            if atop.contains(held) {
                assert(after[hash].0.contains(held));
            } else {
                let parent = choose|parent: Seq<u8>|
                    visible(nodes).contains(parent) && (#[trigger] nodes[parent]).0.contains(held);
                let d = choose|d: nat| grounded(nodes, parent, d);
                assert(after[parent] == nodes[parent]);
                assert(visible(after).contains(parent));
            }
        }
    }
    assert(frontier(after) =~= set![hash]);
}

/// A merge loses nothing: every node that the replica held it holds as
/// before, and every node of the other replica is there too.
pub proof fn lemma_merge_keeps(own: Map<Seq<u8>, NodeView>, other: Map<Seq<u8>, NodeView>)
    ensures
        forall|hash: Seq<u8>|
            own.dom().contains(hash) ==> #[trigger] merged(own, other).dom().contains(hash) && merged(own, other)[hash]
                == own[hash],
        forall|hash: Seq<u8>| other.dom().contains(hash) ==> #[trigger] merged(own, other).dom().contains(hash),
{
}

/// A node that is in a replica's DAG is in its DAG after a merge.
pub proof fn lemma_merge_keeps_visible(
    own: Map<Seq<u8>, NodeView>,
    other: Map<Seq<u8>, NodeView>,
    held: Seq<u8>,
    depth: nat,
)
    requires
        grounded(own, held, depth),
    ensures
        grounded(merged(own, other), held, depth),
        visible(merged(own, other)).contains(held),
    decreases depth,
{
    let after = merged(own, other);
    assert(after[held] == own[held]);
    assert forall|child: Seq<u8>| #[trigger] after[held].0.contains(child) implies grounded(
        after,
        child,
        (depth - 1) as nat,
    ) by {
        assert(own[held].0.contains(child));
        lemma_merge_keeps_visible(own, other, child, (depth - 1) as nat);
    }
}

/// A merge keeps what was written locally in the frontier: an entry of the
/// replica's frontier that no node of either replica names as a child is in
/// the frontier after the other replica has been merged in.
pub proof fn lemma_merge_keeps_branch(own: Map<Seq<u8>, NodeView>, other: Map<Seq<u8>, NodeView>, hash: Seq<u8>)
    requires
        frontier(own).contains(hash),
        unnamed(own, hash),
        unnamed(other, hash),
    ensures
        frontier(merged(own, other)).contains(hash),
{
    let after = merged(own, other);
    let depth = choose|depth: nat| grounded(own, hash, depth);
    lemma_merge_keeps_visible(own, other, hash, depth);
    assert forall|parent: Seq<u8>| visible(after).contains(parent) implies !(#[trigger] after[parent]).0.contains(
        hash,
    ) by {
        let reach = choose|reach: nat| grounded(after, parent, reach);
        assert(after.dom().contains(parent));
        if own.dom().contains(parent) {
            assert(after[parent] == own[parent]);
        } else {
            assert(after[parent] == other[parent]);
        }
    }
}

/// Replicas that hold branches only read every branch of both after a merge,
/// whichever is merged into which: where no node of either has a child, the
/// frontier of the merged replica is the nodes of both.
pub proof fn lemma_branches_merge(one: Map<Seq<u8>, NodeView>, other: Map<Seq<u8>, NodeView>)
    requires
        forall|hash: Seq<u8>| one.dom().contains(hash) ==> (#[trigger] one[hash]).0 == Set::<Seq<u8>>::empty(),
        forall|hash: Seq<u8>| other.dom().contains(hash) ==> (#[trigger] other[hash]).0 == Set::<Seq<u8>>::empty(),
    ensures
        frontier(merged(one, other)) == one.dom().union(other.dom()),
        frontier(merged(other, one)) == one.dom().union(other.dom()),
{
    let forth = merged(one, other);
    let back = merged(other, one);
    assert forall|hash: Seq<u8>| forth.dom().contains(hash) implies (#[trigger] forth[hash]).0 == Set::<
        Seq<u8>,
    >::empty() by {
        if one.dom().contains(hash) {
            assert(forth[hash] == one[hash]);
        } else {
            assert(forth[hash] == other[hash]);
        }
    }
    assert forall|hash: Seq<u8>| back.dom().contains(hash) implies (#[trigger] back[hash]).0 == Set::<
        Seq<u8>,
    >::empty() by {
        if other.dom().contains(hash) {
            assert(back[hash] == other[hash]);
        } else {
            assert(back[hash] == one[hash]);
        }
    }
    lemma_roots_are_the_frontier(forth);
    lemma_roots_are_the_frontier(back);
    assert(forth.dom() =~= one.dom().union(other.dom()));
    assert(back.dom() =~= one.dom().union(other.dom()));
}

/// Two writers that each wrote one entry to an empty register read both
/// entries once each has merged the other's replica, and one entry where
/// the two nodes have one hash.
pub proof fn lemma_two_writers_read_both(first: Seq<u8>, second: Seq<u8>)
    ensures
        ({
            let none = Set::<Seq<u8>>::empty();
            let one = with_node(no_nodes(), (none, first));
            let other = with_node(no_nodes(), (none, second));
            let both = set![node_hash(none, first), node_hash(none, second)];
            &&& frontier(merged(one, other)) == both
            &&& frontier(merged(other, one)) == both
            &&& both.len() == if node_hash(none, first) == node_hash(none, second) {
                1nat
            } else {
                2nat
            }
        }),
{
    let none = Set::<Seq<u8>>::empty();
    let one = with_node(no_nodes(), (none, first));
    let other = with_node(no_nodes(), (none, second));
    let both = set![node_hash(none, first), node_hash(none, second)];
    lemma_branches_merge(one, other);
    assert(one.dom().union(other.dom()) =~= both);
    if node_hash(none, first) == node_hash(none, second) {
        assert(both =~= set![node_hash(none, first)]);
    }
}

/// Two listings of one frontier are the same: replicas that hold the same
/// nodes read the same entries in the same order.
pub proof fn lemma_listings_agree(
    one: Seq<(EntryHash, Entry)>,
    other: Seq<(EntryHash, Entry)>,
    nodes: Map<Seq<u8>, NodeView>,
)
    requires
        lists_frontier(one, nodes),
        lists_frontier(other, nodes),
    ensures
        one.len() == other.len(),
        forall|i: int| 0 <= i < one.len() ==> one[i].0 == other[i].0 && one[i].1@ == other[i].1@,
{
    lemma_listing_counts(one, nodes);
    lemma_listing_counts(other, nodes);
    lemma_prefixes_agree(one, other, nodes, one.len() as int);
    assert forall|i: int| 0 <= i < one.len() implies one[i].0 == other[i].0 && one[i].1@ == other[i].1@ by {
        assert(one[i].0.0 =~= other[i].0.0);
    }
}

/// Two listings of one frontier hold the same hashes at their first `n`
/// places.
proof fn lemma_prefixes_agree(
    one: Seq<(EntryHash, Entry)>,
    other: Seq<(EntryHash, Entry)>,
    nodes: Map<Seq<u8>, NodeView>,
    n: int,
)
    requires
        lists_frontier(one, nodes),
        lists_frontier(other, nodes),
        one.len() == other.len(),
        0 <= n <= one.len(),
    ensures
        forall|k: int| 0 <= k < n ==> (#[trigger] one[k]).0@ == other[k].0@,
    decreases n,
{
    if n > 0 {
        lemma_prefixes_agree(one, other, nodes, n - 1);
        let i = n - 1;
        if one[i].0@ != other[i].0@ {
            crate::octets::lemma_lex_total(one[i].0@, other[i].0@);
            lemma_not_before(one, other, nodes, i);
            assert forall|k: int| 0 <= k < i implies (#[trigger] other[k]).0@ == one[k].0@ by {
                assert(one[k].0@ == other[k].0@);
            }
            lemma_not_before(other, one, nodes, i);
        }
    }
}

/// Where two listings of one frontier agree in front of a place, the hash
/// at that place of the one does not come before the hash there of the other:
/// it would stand further to the front in the other.
proof fn lemma_not_before(
    one: Seq<(EntryHash, Entry)>,
    other: Seq<(EntryHash, Entry)>,
    nodes: Map<Seq<u8>, NodeView>,
    i: int,
)
    requires
        lists_frontier(one, nodes),
        lists_frontier(other, nodes),
        one.len() == other.len(),
        0 <= i < one.len(),
        forall|k: int| 0 <= k < i ==> (#[trigger] one[k]).0@ == other[k].0@,
    ensures
        !lex_less(one[i].0@, other[i].0@),
{
    let mine = one[i].0@;
    if lex_less(mine, other[i].0@) {
        let j = choose|j: int| 0 <= j < other.len() && #[trigger] other[j].0@ == mine;
        if j >= i {
            if j > i {
                assert(lex_less(other[i].0@, other[j].0@));
            }
            crate::octets::lemma_lex_asymmetric(mine, other[i].0@);
            crate::octets::lemma_lex_irreflexive(mine);
        } else {
            assert(one[j].0@ == other[j].0@);
            crate::octets::lemma_lex_irreflexive(mine);
        }
    }
}

/// The nodes of a register after an operation has come, where
/// `signed_bytes` are the bytes that the operation's signature has to cover:
/// an operation that is refused changes nothing.
pub open spec fn after_op(
    owner: User,
    reg_addr: RegisterAddress,
    grants: Map<User, UserRights>,
    nodes: Map<Seq<u8>, NodeView>,
    op: RegisterOp,
    signed_bytes: Seq<u8>,
) -> Map<Seq<u8>, NodeView> {
    if op_verdict(owner, reg_addr, grants, op, signed_bytes) is Ok {
        with_node(nodes, op.crdt_op@)
    } else {
        nodes
    }
}

/// The nodes of a register after the operations of a sequence have come
/// one after the other, where `digest` gives each operation the bytes that
/// its signature has to cover.
pub open spec fn after_ops(
    owner: User,
    reg_addr: RegisterAddress,
    grants: Map<User, UserRights>,
    nodes: Map<Seq<u8>, NodeView>,
    ops: Seq<RegisterOp>,
    digest: spec_fn(RegisterOp) -> Seq<u8>,
) -> Map<Seq<u8>, NodeView>
    decreases ops.len(),
{
    if ops.len() == 0 {
        nodes
    } else {
        after_op(
            owner,
            reg_addr,
            grants,
            after_ops(owner, reg_addr, grants, nodes, ops.drop_last(), digest),
            ops.last(),
            digest(ops.last()),
        )
    }
}

/// Whether the operation is one that the register takes and that brings a
/// node with the given hash.
pub open spec fn brings(
    owner: User,
    reg_addr: RegisterAddress,
    grants: Map<User, UserRights>,
    op: RegisterOp,
    digest: spec_fn(RegisterOp) -> Seq<u8>,
    hash: Seq<u8>,
) -> bool {
    op_verdict(owner, reg_addr, grants, op, digest(op)) is Ok && node_hash(op.crdt_op@.0, op.crdt_op@.1) == hash
}

/// Whether no two operations of the sequence that the register takes bring
/// different nodes under one hash.
pub open spec fn no_collision(
    owner: User,
    reg_addr: RegisterAddress,
    grants: Map<User, UserRights>,
    ops: Seq<RegisterOp>,
    digest: spec_fn(RegisterOp) -> Seq<u8>,
) -> bool {
    forall|i: int, j: int, hash: Seq<u8>|
        #![trigger brings(owner, reg_addr, grants, ops[i], digest, hash), brings(owner, reg_addr, grants, ops[j], digest, hash)]
        0 <= i < ops.len() && 0 <= j < ops.len() && brings(owner, reg_addr, grants, ops[i], digest, hash) && brings(
            owner,
            reg_addr,
            grants,
            ops[j],
            digest,
            hash,
        ) ==> ops[i].crdt_op@ == ops[j].crdt_op@
}

/// What a register holds after a sequence of operations: the nodes it held,
/// and under every other hash that an accepted operation brought, a node
/// that such an operation brought.
proof fn lemma_after_ops(
    owner: User,
    reg_addr: RegisterAddress,
    grants: Map<User, UserRights>,
    nodes: Map<Seq<u8>, NodeView>,
    ops: Seq<RegisterOp>,
    digest: spec_fn(RegisterOp) -> Seq<u8>,
)
    ensures
        forall|hash: Seq<u8>| #[trigger]
            after_ops(owner, reg_addr, grants, nodes, ops, digest).dom().contains(hash) <==> nodes.dom().contains(
                hash,
            ) || exists|i: int|
                0 <= i < ops.len() && brings(owner, reg_addr, grants, #[trigger] ops[i], digest, hash),
        forall|hash: Seq<u8>|
            nodes.dom().contains(hash) ==> #[trigger] after_ops(owner, reg_addr, grants, nodes, ops, digest)[hash]
                == nodes[hash],
        forall|hash: Seq<u8>|
            !nodes.dom().contains(hash) && #[trigger] after_ops(
                owner,
                reg_addr,
                grants,
                nodes,
                ops,
                digest,
            ).dom().contains(hash) ==> exists|i: int|
                0 <= i < ops.len() && brings(owner, reg_addr, grants, #[trigger] ops[i], digest, hash)
                    && after_ops(owner, reg_addr, grants, nodes, ops, digest)[hash] == ops[i].crdt_op@,
    decreases ops.len(),
{
    if ops.len() > 0 {
        let front = ops.drop_last();
        let last = ops.last();
        let before = after_ops(owner, reg_addr, grants, nodes, front, digest);
        let after = after_ops(owner, reg_addr, grants, nodes, ops, digest);
        lemma_after_ops(owner, reg_addr, grants, nodes, front, digest);
        assert forall|i: int| 0 <= i < front.len() implies front[i] == ops[i] by {}
        let taken = op_verdict(owner, reg_addr, grants, last, digest(last)) is Ok;
        let mine = node_hash(last.crdt_op@.0, last.crdt_op@.1);
        assert forall|hash: Seq<u8>| #[trigger]
            after.dom().contains(hash) <==> nodes.dom().contains(hash) || exists|i: int|
                0 <= i < ops.len() && brings(owner, reg_addr, grants, #[trigger] ops[i], digest, hash) by {
            if before.dom().contains(hash) && !nodes.dom().contains(hash) {
                let i = choose|i: int|
                    0 <= i < front.len() && brings(owner, reg_addr, grants, #[trigger] front[i], digest, hash);
                assert(brings(owner, reg_addr, grants, ops[i], digest, hash));
            }
            if taken && hash == mine {
                assert(brings(owner, reg_addr, grants, ops[ops.len() - 1], digest, hash));
            }
            if exists|i: int| 0 <= i < ops.len() && brings(owner, reg_addr, grants, #[trigger] ops[i], digest, hash) {
                let i = choose|i: int|
                    0 <= i < ops.len() && brings(owner, reg_addr, grants, #[trigger] ops[i], digest, hash);
                if i < front.len() {
                    assert(brings(owner, reg_addr, grants, front[i], digest, hash));
                }
            }
        }
        assert forall|hash: Seq<u8>|
            !nodes.dom().contains(hash) && #[trigger] after.dom().contains(hash) implies exists|i: int|
            0 <= i < ops.len() && brings(owner, reg_addr, grants, #[trigger] ops[i], digest, hash) && after[hash]
                == ops[i].crdt_op@ by {
            if before.dom().contains(hash) {
                let i = choose|i: int|
                    0 <= i < front.len() && brings(owner, reg_addr, grants, #[trigger] front[i], digest, hash)
                        && before[hash] == front[i].crdt_op@;
                assert(brings(owner, reg_addr, grants, ops[i], digest, hash) && after[hash] == ops[i].crdt_op@);
            } else {
                assert(brings(owner, reg_addr, grants, ops[ops.len() - 1], digest, hash) && after[hash]
                    == ops[ops.len() - 1].crdt_op@);
            }
        }
    }
}

/// Replicas converge: a register that takes the operations of a sequence
/// holds the same nodes, and so has the same frontier, as one that takes them
/// in any other order, as long as no two of the operations that it takes
/// bring different nodes under one hash.
pub proof fn lemma_order_is_irrelevant(
    owner: User,
    reg_addr: RegisterAddress,
    grants: Map<User, UserRights>,
    nodes: Map<Seq<u8>, NodeView>,
    ops: Seq<RegisterOp>,
    permuted: Seq<RegisterOp>,
    digest: spec_fn(RegisterOp) -> Seq<u8>,
)
    requires
        ops.to_multiset() == permuted.to_multiset(),
        no_collision(owner, reg_addr, grants, ops, digest),
    ensures
        after_ops(owner, reg_addr, grants, nodes, ops, digest) == after_ops(
            owner,
            reg_addr,
            grants,
            nodes,
            permuted,
            digest,
        ),
        frontier(after_ops(owner, reg_addr, grants, nodes, ops, digest)) == frontier(
            after_ops(owner, reg_addr, grants, nodes, permuted, digest),
        ),
{
    let one = after_ops(owner, reg_addr, grants, nodes, ops, digest);
    let other = after_ops(owner, reg_addr, grants, nodes, permuted, digest);
    lemma_after_ops(owner, reg_addr, grants, nodes, ops, digest);
    lemma_after_ops(owner, reg_addr, grants, nodes, permuted, digest);
    assert forall|op: RegisterOp| ops.contains(op) <==> permuted.contains(op) by {
        vstd::seq_lib::to_multiset_contains(ops, op);
        vstd::seq_lib::to_multiset_contains(permuted, op);
    }
    assert forall|hash: Seq<u8>| one.dom().contains(hash) <==> other.dom().contains(hash) by {
        if !nodes.dom().contains(hash) {
            if one.dom().contains(hash) {
                let i = choose|i: int|
                    0 <= i < ops.len() && brings(owner, reg_addr, grants, #[trigger] ops[i], digest, hash);
                assert(ops.contains(ops[i]));
                let j = choose|j: int| 0 <= j < permuted.len() && permuted[j] == ops[i];
                assert(brings(owner, reg_addr, grants, permuted[j], digest, hash));
            }
            if other.dom().contains(hash) {
                let j = choose|j: int|
                    0 <= j < permuted.len() && brings(owner, reg_addr, grants, #[trigger] permuted[j], digest, hash);
                assert(permuted.contains(permuted[j]));
                let i = choose|i: int| 0 <= i < ops.len() && ops[i] == permuted[j];
                assert(brings(owner, reg_addr, grants, ops[i], digest, hash));
            }
        }
    }
    assert forall|hash: Seq<u8>| one.dom().contains(hash) implies one[hash] == other[hash] by {
        if !nodes.dom().contains(hash) {
            let i = choose|i: int|
                0 <= i < ops.len() && brings(owner, reg_addr, grants, #[trigger] ops[i], digest, hash) && one[hash]
                    == ops[i].crdt_op@;
            let j = choose|j: int|
                0 <= j < permuted.len() && brings(owner, reg_addr, grants, #[trigger] permuted[j], digest, hash)
                    && other[hash] == permuted[j].crdt_op@;
            assert(permuted.contains(permuted[j]));
            let k = choose|k: int| 0 <= k < ops.len() && ops[k] == permuted[j];
            assert(ops[i].crdt_op@ == ops[k].crdt_op@);
        }
    }
}

} // verus!
