//! The address space: every identifier of the network, and the XOR metric
//! that all routing uses.
//!
//! Distance is always taken between K-bucket keys, the SHA-256 digests of an
//! address's canonical bytes, so that addresses of different kinds compare.

use crate::octets::{array_eq, array_to_vec, be_bytes, lemma_xor_commutes, lemma_xor_self, vec_eq, xor_seq, zeros};
use vstd::prelude::*;

verus! {

/// The number of bytes in an XOR-name.
pub const XOR_NAME_LEN: usize = 32;

/// A 256-bit identifier, the routing metric's unit.
#[derive(Clone, Copy, Debug, PartialEq, Eq, PartialOrd, Ord, Hash)]
pub struct XorName(pub [u8; 32]);

impl View for XorName {
    type V = Seq<u8>;

    open spec fn view(&self) -> Seq<u8> {
        self.0@
    }
}

/// The XOR-name that `xor_name::XorName::from_content` gives to a content.
pub uninterp spec fn content_name(content: Seq<u8>) -> Seq<u8>;

/// The digest that `libp2p::kad::KBucketKey::new` stores for a preimage.
pub uninterp spec fn kbucket_digest(preimage: Seq<u8>) -> Seq<u8>;

/// Calls `xor_name::XorName::from_content`, which hashes the content with
/// SHA3-256: the result is the same for the same bytes.
#[verifier::external_body]
fn hash_content(content: &Vec<u8>) -> (name: XorName)
    ensures
        name@ == content_name(content@),
{
    XorName(xor_name::XorName::from_content(content).0)
}

/// Calls `xor_name::XorName::random` with the thread's random number
/// generator. Nothing is known of the name that comes back.
#[verifier::external_body]
fn draw_name() -> (name: XorName) {
    XorName(xor_name::XorName::random(&mut rand::thread_rng()).0)
}

/// Calls `libp2p::kad::KBucketKey::new` and reads `hashed_bytes`: the SHA-256
/// digest of the preimage, 32 bytes, the same for the same bytes.
#[verifier::external_body]
fn digest_preimage(preimage: &Vec<u8>) -> (digest: [u8; 32])
    ensures
        digest@ == kbucket_digest(preimage@),
{
    let key = libp2p::kad::KBucketKey::new(preimage.clone());
    let mut digest = [0u8; 32];
    digest.copy_from_slice(key.hashed_bytes());
    digest
}

/// Calls `libp2p::kad::KBucketKey::distance` on the keys of two preimages and
/// writes the 256-bit result out in big-endian bytes. The distance is the
/// bitwise XOR of the two digests, each read as a big-endian integer.
#[verifier::external_body]
fn measure(a: &Vec<u8>, b: &Vec<u8>) -> (distance: [u8; 32])
    ensures
        distance@ == xor_seq(32, kbucket_digest(a@), kbucket_digest(b@)),
{
    let left = libp2p::kad::KBucketKey::new(a.clone());
    let right = libp2p::kad::KBucketKey::new(b.clone());
    left.distance(&right).0.to_big_endian()
}

impl XorName {
    /// The name of a content: its SHA3-256 digest.
    pub fn from_content(content: &Vec<u8>) -> (name: XorName)
        ensures
            name@ == content_name(content@),
    {
        hash_content(content)
    }

    /// A name drawn at random.
    pub fn random() -> XorName {
        draw_name()
    }

    /// Whether two names are the same.
    pub fn equals(&self, other: &XorName) -> (same: bool)
        ensures
            same == (*self == *other),
            same == (self@ == other@),
    {
        array_eq(&self.0, &other.0)
    }

    /// The bytes of the name.
    pub fn to_vec(&self) -> (bytes: Vec<u8>)
        ensures
            bytes@ == self@,
    {
        array_to_vec(&self.0)
    }
}

/// The address of a chunk: the XOR-name of its content.
#[derive(Clone, Copy, Debug, PartialEq, Eq, PartialOrd, Ord, Hash)]
pub struct ChunkAddress(pub XorName);

impl ChunkAddress {
    /// The address with the given name.
    pub fn new(name: XorName) -> (address: ChunkAddress)
        ensures
            address.0 == name,
    {
        ChunkAddress(name)
    }

    /// The address's XOR-name.
    pub fn xorname(&self) -> (name: XorName)
        ensures
            name == self.0,
    {
        self.0
    }
}

/// The address of a spend: the XOR-name of the consumed identifier.
#[derive(Clone, Copy, Debug, PartialEq, Eq, PartialOrd, Ord, Hash)]
pub struct DbcAddress(pub XorName);

impl DbcAddress {
    /// The address with the given name.
    pub fn new(name: XorName) -> (address: DbcAddress)
        ensures
            address.0 == name,
    {
        DbcAddress(name)
    }

    /// The address's XOR-name.
    pub fn xorname(&self) -> (name: XorName)
        ensures
            name == self.0,
    {
        self.0
    }
}

/// The eight bytes of `tag`, most significant first.
pub open spec fn tag_bytes(tag: u64) -> Seq<u8> {
    be_bytes(tag)
}

/// The address of a register: its name and tag, which together are its
/// identity.
#[derive(Clone, Copy, Debug, PartialEq, Eq, PartialOrd, Ord, Hash)]
pub struct RegisterAddress {
    /// The name given to the register.
    pub name: XorName,
    /// The tag given to the register.
    pub tag: u64,
}

impl RegisterAddress {
    /// The address of the register with this name and tag.
    pub fn new(name: XorName, tag: u64) -> (address: RegisterAddress)
        ensures
            address.name == name,
            address.tag == tag,
    {
        RegisterAddress { name, tag }
    }

    /// The bytes that the address's XOR-name is the digest of: the name, then
    /// the tag.
    pub open spec fn identity(&self) -> Seq<u8> {
        self.name@ + tag_bytes(self.tag)
    }

    /// The bytes of the register's identity: the name, then the tag, most
    /// significant byte first.
    pub fn identity_bytes(&self) -> (bytes: Vec<u8>)
        ensures
            bytes@ == self.identity(),
    {
        let mut bytes = self.name.to_vec();
        let tag = self.tag;
        bytes.push((tag >> 56) as u8);
        bytes.push((tag >> 48) as u8);
        bytes.push((tag >> 40) as u8);
        bytes.push((tag >> 32) as u8);
        bytes.push((tag >> 24) as u8);
        bytes.push((tag >> 16) as u8);
        bytes.push((tag >> 8) as u8);
        bytes.push(tag as u8);
        assert(bytes@ =~= self.identity());
        bytes
    }

    /// The address's XOR-name, a function of name and tag alone.
    pub fn xorname(&self) -> (name: XorName)
        ensures
            name@ == content_name(self.identity()),
    {
        XorName::from_content(&self.identity_bytes())
    }

    /// Whether two addresses are the same.
    pub fn equals(&self, other: &RegisterAddress) -> (same: bool)
        ensures
            same == (*self == *other),
    {
        self.tag == other.tag && self.name.equals(&other.name)
    }
}

/// The key under which a record is stored: opaque bytes.
#[derive(Clone, Debug, PartialEq, Eq, Hash)]
pub struct RecordKey(pub Vec<u8>);

impl View for RecordKey {
    type V = Seq<u8>;

    open spec fn view(&self) -> Seq<u8> {
        self.0@
    }
}

impl RecordKey {
    /// The key that holds a copy of `bytes`.
    pub fn new(bytes: &Vec<u8>) -> (key: RecordKey)
        ensures
            key@ == bytes@,
    {
        RecordKey(bytes.clone())
    }

    /// A copy of the key's bytes.
    pub fn to_vec(&self) -> (bytes: Vec<u8>)
        ensures
            bytes@ == self@,
    {
        self.0.clone()
    }
}

/// A key of the routing table: a preimage together with its SHA-256 digest.
#[derive(Debug, PartialEq, Eq)]
pub struct KBucketKey {
    preimage: Vec<u8>,
    hashed: [u8; 32],
}

impl Clone for KBucketKey {
    fn clone(&self) -> (copy: KBucketKey)
        ensures
            copy.spec_preimage() == self.spec_preimage(),
            copy.spec_hashed_bytes() == self.spec_hashed_bytes(),
    {
        proof {
            use_type_invariant(self);
        }
        KBucketKey { preimage: self.preimage.clone(), hashed: self.hashed }
    }
}

impl KBucketKey {
    /// The digest is that of the preimage.
    #[verifier::type_invariant]
    spec fn wf(&self) -> bool {
        self.hashed@ == kbucket_digest(self.preimage@)
    }

    /// The bytes that were hashed.
    pub closed spec fn spec_preimage(&self) -> Seq<u8> {
        self.preimage@
    }

    /// The digest of the preimage.
    pub closed spec fn spec_hashed_bytes(&self) -> Seq<u8> {
        self.hashed@
    }

    /// The key of a preimage.
    pub fn new(preimage: Vec<u8>) -> (key: KBucketKey)
        ensures
            key.spec_preimage() == preimage@,
            key.spec_hashed_bytes() == kbucket_digest(preimage@),
    {
        let hashed = digest_preimage(&preimage);
        KBucketKey { preimage, hashed }
    }

    /// The bytes that were hashed.
    pub fn preimage(&self) -> (bytes: &Vec<u8>)
        ensures
            bytes@ == self.spec_preimage(),
    {
        &self.preimage
    }

    /// The digest, 32 bytes.
    pub fn hashed_bytes(&self) -> (bytes: [u8; 32])
        ensures
            bytes@ == self.spec_hashed_bytes(),
            bytes@ == kbucket_digest(self.spec_preimage()),
    {
        proof {
            use_type_invariant(self);
        }
        self.hashed
    }

    /// The XOR distance between the digests of two keys.
    pub fn distance(&self, other: &KBucketKey) -> (distance: Distance)
        ensures
            distance@ == xor_seq(32, self.spec_hashed_bytes(), other.spec_hashed_bytes()),
    {
        proof {
            use_type_invariant(self);
            use_type_invariant(other);
        }
        Distance(measure(&self.preimage, &other.preimage))
    }
}

/// A distance in the XOR metric: a 256-bit integer, most significant byte
/// first. The derived order is that of the integers.
#[derive(Clone, Copy, Debug, PartialEq, Eq, PartialOrd, Ord, Hash)]
pub struct Distance(pub [u8; 32]);

impl View for Distance {
    type V = Seq<u8>;

    open spec fn view(&self) -> Seq<u8> {
        self.0@
    }
}

impl Distance {
    /// Whether the distance is zero.
    pub fn is_zero(&self) -> (zero: bool)
        ensures
            zero == (self@ == zeros(32)),
    {
        let nothing = [0u8; 32];
        assert(nothing@ =~= zeros(32));
        array_eq(&self.0, &nothing)
    }

    /// Whether two distances are the same.
    pub fn equals(&self, other: &Distance) -> (same: bool)
        ensures
            same == (self@ == other@),
    {
        array_eq(&self.0, &other.0)
    }
}

/// The address by which distance to any item of the network, peer or data, is
/// computed.
#[derive(Clone, Debug, PartialEq, Eq, PartialOrd, Ord, Hash)]
pub enum NetworkAddress {
    /// The address of a peer: the bytes of its identifier.
    PeerId(Vec<u8>),
    /// The address of a chunk.
    ChunkAddress(ChunkAddress),
    /// The address of a spend.
    DbcAddress(DbcAddress),
    /// The address of a register.
    RegisterAddress(RegisterAddress),
    /// The address of a raw record key.
    RecordKey(Vec<u8>),
}

impl NetworkAddress {
    /// The canonical bytes of the address.
    pub open spec fn bytes(&self) -> Seq<u8> {
        match self {
            NetworkAddress::PeerId(bytes) => bytes@,
            NetworkAddress::RecordKey(bytes) => bytes@,
            NetworkAddress::ChunkAddress(address) => address.0@,
            NetworkAddress::DbcAddress(address) => address.0@,
            NetworkAddress::RegisterAddress(address) => content_name(address.identity()),
        }
    }

    /// The digest on which all distances of this address are taken.
    pub open spec fn kbucket(&self) -> Seq<u8> {
        kbucket_digest(self.bytes())
    }

    /// The distance between two addresses in the XOR metric.
    pub open spec fn spec_distance(&self, other: &NetworkAddress) -> Seq<u8> {
        xor_seq(32, self.kbucket(), other.kbucket())
    }

    /// The address of a chunk.
    pub fn from_chunk_address(chunk_address: ChunkAddress) -> (address: NetworkAddress)
        ensures
            address == NetworkAddress::ChunkAddress(chunk_address),
    {
        NetworkAddress::ChunkAddress(chunk_address)
    }

    /// The address of a spend.
    pub fn from_dbc_address(dbc_address: DbcAddress) -> (address: NetworkAddress)
        ensures
            address == NetworkAddress::DbcAddress(dbc_address),
    {
        NetworkAddress::DbcAddress(dbc_address)
    }

    /// The address of a register.
    pub fn from_register_address(register_address: RegisterAddress) -> (address: NetworkAddress)
        ensures
            address == NetworkAddress::RegisterAddress(register_address),
    {
        NetworkAddress::RegisterAddress(register_address)
    }

    /// The address of a peer, which holds the bytes of the peer's identifier.
    pub fn from_peer(peer_id: PeerId) -> (address: NetworkAddress)
        ensures
            address is PeerId,
            address.bytes() == peer_id@,
            peer_id_parses(address.bytes()),
    {
        NetworkAddress::PeerId(peer_id.to_bytes())
    }

    /// The address of a record key, which holds the key's bytes.
    pub fn from_record_key(record_key: RecordKey) -> (address: NetworkAddress)
        ensures
            address is RecordKey,
            address.bytes() == record_key@,
    {
        NetworkAddress::RecordKey(record_key.to_vec())
    }

    /// The canonical bytes of the address.
    pub fn as_bytes(&self) -> (bytes: Vec<u8>)
        ensures
            bytes@ == self.bytes(),
    {
        match self {
            NetworkAddress::PeerId(bytes) => bytes.clone(),
            NetworkAddress::RecordKey(bytes) => bytes.clone(),
            NetworkAddress::ChunkAddress(address) => address.xorname().to_vec(),
            NetworkAddress::DbcAddress(address) => address.xorname().to_vec(),
            NetworkAddress::RegisterAddress(address) => address.xorname().to_vec(),
        }
    }

    /// The peer that the address stands for: none unless the address is that
    /// of a peer and its bytes parse as a peer's identifier.
    pub fn as_peer_id(&self) -> (peer: Option<PeerId>)
        ensures
            peer is Some <==> self is PeerId && peer_id_parses(self.bytes()),
            peer matches Some(found) ==> found@ == self.bytes(),
    {
        match self {
            NetworkAddress::PeerId(bytes) => PeerId::from_bytes(bytes),
            _ => None,
        }
    }

    /// The record key that the address stands for, if it is one.
    pub fn as_record_key(&self) -> (key: Option<RecordKey>)
        ensures
            self is RecordKey <==> key is Some,
            key matches Some(k) ==> k@ == self.bytes(),
    {
        match self {
            NetworkAddress::RecordKey(bytes) => Some(RecordKey::new(bytes)),
            _ => None,
        }
    }

    /// The key under which the item at this address is stored: the address's
    /// canonical bytes.
    pub fn to_record_key(&self) -> (key: RecordKey)
        ensures
            key@ == self.bytes(),
    {
        RecordKey(self.as_bytes())
    }

    /// The K-bucket key of the address: its canonical bytes and their
    /// SHA-256 digest.
    pub fn as_kbucket_key(&self) -> (key: KBucketKey)
        ensures
            key.spec_preimage() == self.bytes(),
            key.spec_hashed_bytes() == self.kbucket(),
    {
        KBucketKey::new(self.as_bytes())
    }

    /// The distance between two addresses in the XOR metric, taken on their
    /// K-bucket keys.
    pub fn distance(&self, other: &NetworkAddress) -> (distance: Distance)
        ensures
            distance@ == self.spec_distance(other),
    {
        self.as_kbucket_key().distance(&other.as_kbucket_key())
    }

    /// Whether two addresses are of one kind and hold the same bytes.
    pub open spec fn same_as(&self, other: &NetworkAddress) -> bool {
        match (*self, *other) {
            (NetworkAddress::PeerId(a), NetworkAddress::PeerId(b)) => a@ == b@,
            (NetworkAddress::RecordKey(a), NetworkAddress::RecordKey(b)) => a@ == b@,
            (NetworkAddress::ChunkAddress(a), NetworkAddress::ChunkAddress(b)) => a == b,
            (NetworkAddress::DbcAddress(a), NetworkAddress::DbcAddress(b)) => a == b,
            (NetworkAddress::RegisterAddress(a), NetworkAddress::RegisterAddress(b)) => a == b,
            _ => false,
        }
    }

    /// Whether two addresses are of one kind and hold the same bytes.
    pub fn equals(&self, other: &NetworkAddress) -> (same: bool)
        ensures
            same == self.same_as(other),
            same ==> self.bytes() == other.bytes(),
    {
        match (self, other) {
            (NetworkAddress::PeerId(a), NetworkAddress::PeerId(b)) => vec_eq(a, b),
            (NetworkAddress::RecordKey(a), NetworkAddress::RecordKey(b)) => vec_eq(a, b),
            (NetworkAddress::ChunkAddress(a), NetworkAddress::ChunkAddress(b)) => a.0.equals(&b.0),
            (NetworkAddress::DbcAddress(a), NetworkAddress::DbcAddress(b)) => a.0.equals(&b.0),
            (NetworkAddress::RegisterAddress(a), NetworkAddress::RegisterAddress(b)) => a.equals(b),
            _ => false,
        }
    }
}

/// Whether `libp2p::PeerId::from_bytes` takes the bytes for the identifier of
/// a peer.
pub uninterp spec fn peer_id_parses(bytes: Seq<u8>) -> bool;

/// Calls `libp2p::PeerId::from_bytes` and says whether it gave an identifier.
/// The answer depends on the bytes alone.
#[verifier::external_body]
fn parses_as_peer(bytes: &Vec<u8>) -> (valid: bool)
    ensures
        valid == peer_id_parses(bytes@),
{
    libp2p::PeerId::from_bytes(bytes).is_ok()
}

/// The identifier of a peer: bytes that parse as one.
#[derive(Debug, PartialEq, Eq, PartialOrd, Ord, Hash)]
pub struct PeerId {
    bytes: Vec<u8>,
}

impl View for PeerId {
    type V = Seq<u8>;

    closed spec fn view(&self) -> Seq<u8> {
        self.bytes@
    }
}

impl Clone for PeerId {
    fn clone(&self) -> (copy: PeerId)
        ensures
            copy@ == self@,
    {
        proof {
            use_type_invariant(self);
        }
        PeerId { bytes: self.bytes.clone() }
    }
}

impl PeerId {
    /// The bytes parse as the identifier of a peer.
    #[verifier::type_invariant]
    spec fn wf(&self) -> bool {
        peer_id_parses(self.bytes@)
    }

    /// The identifier that the bytes are, if they parse as one.
    pub fn from_bytes(bytes: &Vec<u8>) -> (peer: Option<PeerId>)
        ensures
            peer is Some <==> peer_id_parses(bytes@),
            peer matches Some(found) ==> found@ == bytes@,
    {
        if parses_as_peer(bytes) {
            Some(PeerId { bytes: bytes.clone() })
        } else {
            None
        }
    }

    /// The bytes of the identifier, which parse as one.
    pub fn to_bytes(&self) -> (bytes: Vec<u8>)
        ensures
            bytes@ == self@,
            peer_id_parses(bytes@),
    {
        proof {
            use_type_invariant(self);
        }
        self.bytes.clone()
    }
}

/// The distance between two addresses does not depend on their order, and
/// every address is at distance zero from itself.
pub proof fn lemma_distance_symmetric(a: NetworkAddress, b: NetworkAddress)
    ensures
        a.spec_distance(&b) == b.spec_distance(&a),
        a.spec_distance(&a) == zeros(32),
{
    lemma_xor_commutes(32, a.kbucket(), b.kbucket());
    lemma_xor_self(32, a.kbucket());
}

} // verus!
