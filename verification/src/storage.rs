//! What a node stores: chunks, registers and spends, each kind in a store of
//! its own, keyed by address; and the log of the double spends that peers
//! have reported.

use crate::address::{content_name, ChunkAddress, DbcAddress, RegisterAddress, XorName};
use crate::dbc::SignedSpend;
use crate::error::{Error, ProtocolError};
use crate::messages::{Chunk, Cmd, CmdResponse, Query, QueryResponse, RegisterCmd};
use crate::register::{
    after_op, after_ops, lemma_order_is_irrelevant, no_collision, op_verdict, Register, RegisterOp, User,
};
use crate::scan::{first_index, lemma_first_index, lemma_first_index_alike, lemma_first_index_push};
use vstd::prelude::*;

verus! {

/// The place of the chunk with the given address in a list of chunks.
pub open spec fn chunk_index(chunks: Seq<Chunk>, address: ChunkAddress) -> Option<int> {
    first_index(chunks, |chunk: Chunk| chunk.address == address)
}

/// The content that a list of chunks holds at each address.
pub open spec fn chunk_map(chunks: Seq<Chunk>) -> Map<ChunkAddress, Seq<u8>> {
    Map::new(
        |address: ChunkAddress| chunk_index(chunks, address) is Some,
        |address: ChunkAddress| chunks[chunk_index(chunks, address)->Some_0].value@,
    )
}

/// What the write of a chunk gives, and what the store holds after it. A
/// chunk whose address is not the name of its content is refused. A chunk
/// whose address is taken changes nothing: the store is append-only.
pub open spec fn chunk_write(stored: Map<ChunkAddress, Seq<u8>>, chunk: Chunk) -> (
    Map<ChunkAddress, Seq<u8>>,
    Result<(), ProtocolError>,
) {
    if chunk.address.0@ != content_name(chunk.value@) {
        (
            stored,
            Err(
                ProtocolError::ChunkAddressMismatch {
                    claimed: chunk.address,
                    computed: computed_address(chunk.value@),
                },
            ),
        )
    } else if stored.dom().contains(chunk.address) {
        (stored, Ok(()))
    } else {
        (stored.insert(chunk.address, chunk.value@), Ok(()))
    }
}

/// What a read at an address gives from what the store holds.
pub open spec fn chunk_read(stored: Map<ChunkAddress, Seq<u8>>, address: ChunkAddress) -> Result<
    Seq<u8>,
    ProtocolError,
> {
    if stored.dom().contains(address) {
        Ok(stored[address])
    } else {
        Err(ProtocolError::ChunkNotFound(address))
    }
}

/// A chunk that has been written is read back as it was written, and to
/// write it once more changes nothing. This holds of every chunk that stands
/// at the address of its content, unless the store holds another content
/// under that address.
pub proof fn lemma_chunk_round_trip(stored: Map<ChunkAddress, Seq<u8>>, chunk: Chunk)
    requires
        chunk.address.0@ == content_name(chunk.value@),
        stored.dom().contains(chunk.address) ==> stored[chunk.address] == chunk.value@,
    ensures
        chunk_write(stored, chunk).1 is Ok,
        chunk_read(chunk_write(stored, chunk).0, chunk.address) == Ok::<Seq<u8>, ProtocolError>(chunk.value@),
        chunk_write(chunk_write(stored, chunk).0, chunk) == (chunk_write(stored, chunk).0, Ok::<(), ProtocolError>(())),
{
}

/// The address of a content.
pub open spec fn computed_address(content: Seq<u8>) -> ChunkAddress {
    choose|address: ChunkAddress| address.0@ == content_name(content)
}

/// The store of chunks: append-only, one chunk at an address.
#[derive(Debug)]
pub struct ChunkStore {
    chunks: Vec<Chunk>,
}

impl View for ChunkStore {
    type V = Map<ChunkAddress, Seq<u8>>;

    closed spec fn view(&self) -> Map<ChunkAddress, Seq<u8>> {
        chunk_map(self.chunks@)
    }
}

impl ChunkStore {
    /// A store without chunks.
    pub fn new() -> (store: ChunkStore)
        ensures
            store@ == Map::<ChunkAddress, Seq<u8>>::empty(),
    {
        ChunkStore { chunks: Vec::new() }
    }

    /// The place of the chunk at an address.
    fn find(&self, address: &ChunkAddress) -> (place: Option<usize>)
        ensures
            place is Some == chunk_index(self.chunks@, *address) is Some,
            place matches Some(i) ==> chunk_index(self.chunks@, *address) == Some(i as int) && i
                < self.chunks.len(),
    {
        let mut i: usize = 0;
        while i < self.chunks.len()
            invariant
                i <= self.chunks.len(),
                forall|j: int| 0 <= j < i ==> (#[trigger] self.chunks@[j]).address != *address,
            decreases self.chunks.len() - i,
        {
            if self.chunks[i].address.0.equals(&address.0) {
                proof {
                    lemma_first_index(self.chunks@, |chunk: Chunk| chunk.address == *address);
                }
                return Some(i);
            }
            i += 1;
        }
        proof {
            lemma_first_index(self.chunks@, |chunk: Chunk| chunk.address == *address);
        }
        None
    }

    /// Stores a chunk. The chunk's address has to be the name of its
    /// content. Where a chunk is stored at the address already, nothing
    /// changes and the write succeeds.
    pub fn write(&mut self, chunk: &Chunk) -> (result: Result<(), ProtocolError>)
        ensures
            (final(self)@, result) == chunk_write(old(self)@, *chunk),
    {
        let computed = ChunkAddress::new(XorName::from_content(&chunk.value));
        if !computed.0.equals(&chunk.address.0) {
            proof {
                let chosen = computed_address(chunk.value@);
                assert(chosen.0.0 =~= computed.0.0);
            }
            return Err(ProtocolError::ChunkAddressMismatch { claimed: chunk.address, computed });
        }
        match self.find(&chunk.address) {
            Some(_) => Ok(()),
            None => {
                let ghost before = self.chunks@;
                self.chunks.push(chunk.duplicate());
                proof {
                    let added = self.chunks@[self.chunks@.len() - 1];
                    assert forall|address: ChunkAddress|
                        chunk_index(self.chunks@, address) == if address == chunk.address {
                            Some(before.len() as int)
                        } else {
                            chunk_index(before, address)
                        } by {
                        lemma_first_index_push(before, |c: Chunk| c.address == address, added);
                    }
                    assert forall|address: ChunkAddress| chunk_index(before, address) is Some implies 0
                        <= chunk_index(before, address)->Some_0 < before.len() by {
                        lemma_first_index(before, |c: Chunk| c.address == address);
                    }
                }
                Ok(())
            },
        }
    }

    /// The chunk at an address: `ChunkNotFound` where there is none.
    pub fn read(&self, address: &ChunkAddress) -> (result: Result<Chunk, ProtocolError>)
        ensures
            result is Ok <==> self@.dom().contains(*address),
            result matches Ok(chunk) ==> chunk.address == *address && chunk.value@ == self@[*address],
            result matches Err(error) ==> error == ProtocolError::ChunkNotFound(*address),
            match chunk_read(self@, *address) {
                Ok(content) => result matches Ok(chunk) && chunk.value@ == content,
                Err(error) => result matches Err(e) && e == error,
            },
    {
        match self.find(address) {
            Some(i) => {
                proof {
                    lemma_first_index(self.chunks@, |chunk: Chunk| chunk.address == *address);
                }
                Ok(self.chunks[i].duplicate())
            },
            None => Err(ProtocolError::ChunkNotFound(*address)),
        }
    }
}

/// A spend with the address at which it is recorded.
#[derive(Clone, Copy, Debug, PartialEq, Eq)]
pub struct SpendRecord {
    /// The address.
    pub address: DbcAddress,
    /// The spend.
    pub spend: SignedSpend,
}

/// The place of the spend at an address in a list of records.
pub open spec fn spend_index(spends: Seq<SpendRecord>, address: DbcAddress) -> Option<int> {
    first_index(spends, |record: SpendRecord| record.address == address)
}

/// The spend that a list of records holds at each address.
pub open spec fn spend_map(spends: Seq<SpendRecord>) -> Map<DbcAddress, SignedSpend> {
    Map::new(
        |address: DbcAddress| spend_index(spends, address) is Some,
        |address: DbcAddress| spends[spend_index(spends, address)->Some_0].spend,
    )
}

/// What the write of a spend at its address gives, and what the store holds
/// after it. The first write wins: a different spend at a taken address is a
/// double spend, and the store keeps what it has.
pub open spec fn spend_write(stored: Map<DbcAddress, SignedSpend>, address: DbcAddress, spend: SignedSpend) -> (
    Map<DbcAddress, SignedSpend>,
    Result<(), ProtocolError>,
) {
    if stored.dom().contains(address) {
        if stored[address] == spend {
            (stored, Ok(()))
        } else {
            (stored, Err(ProtocolError::DoubleSpendAttempt { new: spend, existing: stored[address] }))
        }
    } else {
        (stored.insert(address, spend), Ok(()))
    }
}

/// The first write wins: where two different spends are written to one free
/// address, the first is recorded and stays, and the second write is refused
/// as a double spend that names both.
pub proof fn lemma_first_spend_wins(
    stored: Map<DbcAddress, SignedSpend>,
    address: DbcAddress,
    first: SignedSpend,
    second: SignedSpend,
)
    requires
        first != second,
        address.0@ == first.spec_address(),
        address.0@ == second.spec_address(),
        stored.dom().contains(address) ==> stored[address] == first,
    ensures
        spend_write(stored, address, first).1 is Ok,
        spend_write(spend_write(stored, address, first).0, address, second).0[address] == first,
        spend_write(spend_write(stored, address, first).0, address, second).0 == spend_write(
            stored,
            address,
            first,
        ).0,
        spend_write(spend_write(stored, address, first).0, address, second).1 == Err::<(), ProtocolError>(
            ProtocolError::DoubleSpendAttempt { new: second, existing: first },
        ),
{
}

/// The store of spends: a single value at an address.
#[derive(Debug)]
pub struct SpendStore {
    spends: Vec<SpendRecord>,
}

impl View for SpendStore {
    type V = Map<DbcAddress, SignedSpend>;

    closed spec fn view(&self) -> Map<DbcAddress, SignedSpend> {
        spend_map(self.spends@)
    }
}

impl SpendStore {
    /// A store without spends.
    pub fn new() -> (store: SpendStore)
        ensures
            store@ == Map::<DbcAddress, SignedSpend>::empty(),
    {
        SpendStore { spends: Vec::new() }
    }

    /// The place of the spend at an address.
    fn find(&self, address: &DbcAddress) -> (place: Option<usize>)
        ensures
            place is Some == spend_index(self.spends@, *address) is Some,
            place matches Some(i) ==> spend_index(self.spends@, *address) == Some(i as int) && i
                < self.spends.len(),
    {
        let mut i: usize = 0;
        while i < self.spends.len()
            invariant
                i <= self.spends.len(),
                forall|j: int| 0 <= j < i ==> (#[trigger] self.spends@[j]).address != *address,
            decreases self.spends.len() - i,
        {
            if self.spends[i].address.0.equals(&address.0) {
                proof {
                    lemma_first_index(self.spends@, |record: SpendRecord| record.address == *address);
                }
                return Some(i);
            }
            i += 1;
        }
        proof {
            lemma_first_index(self.spends@, |record: SpendRecord| record.address == *address);
        }
        None
    }

    /// Records a spend at its address, which is the XOR-name of the
    /// identifier it consumes. Where the same spend is recorded already the
    /// write succeeds; where another is, the write is a double spend and
    /// what is recorded stays.
    pub fn write(&mut self, spend: &SignedSpend) -> (result: Result<(), ProtocolError>)
        ensures
            exists|address: DbcAddress|
                address.0@ == spend.spec_address() && (final(self)@, result) == #[trigger] spend_write(
                    old(self)@,
                    address,
                    *spend,
                ),
    {
        let address = spend.address();
        match self.find(&address) {
            Some(i) => {
                proof {
                    lemma_first_index(self.spends@, |record: SpendRecord| record.address == address);
                }
                let existing = self.spends[i].spend;
                if existing.equals(spend) {
                    Ok(())
                } else {
                    Err(ProtocolError::DoubleSpendAttempt { new: *spend, existing })
                }
            },
            None => {
                let ghost before = self.spends@;
                self.spends.push(SpendRecord { address, spend: *spend });
                proof {
                    let added = SpendRecord { address, spend: *spend };
                    assert forall|other: DbcAddress|
                        spend_index(self.spends@, other) == if other == address {
                            Some(before.len() as int)
                        } else {
                            spend_index(before, other)
                        } by {
                        lemma_first_index_push(before, |record: SpendRecord| record.address == other, added);
                    }
                    assert forall|other: DbcAddress| spend_index(before, other) is Some implies 0
                        <= spend_index(before, other)->Some_0 < before.len() by {
                        lemma_first_index(before, |record: SpendRecord| record.address == other);
                    }
                    assert((self@, Ok::<(), ProtocolError>(())) == spend_write(old(self)@, address, *spend));
                }
                Ok(())
            },
        }
    }

    /// The spend at an address: `SpendNotFound` where there is none.
    pub fn read(&self, address: &DbcAddress) -> (result: Result<SignedSpend, ProtocolError>)
        ensures
            result is Ok <==> self@.dom().contains(*address),
            result matches Ok(spend) ==> spend == self@[*address],
            result matches Err(error) ==> error == ProtocolError::SpendNotFound(*address),
    {
        match self.find(address) {
            Some(i) => {
                proof {
                    lemma_first_index(self.spends@, |record: SpendRecord| record.address == *address);
                }
                Ok(self.spends[i].spend)
            },
            None => Err(ProtocolError::SpendNotFound(*address)),
        }
    }
}

/// Whether two spends are a double spend: different spends of one
/// identifier.
pub open spec fn is_double_spend(a: SignedSpend, b: SignedSpend) -> bool {
    a.dbc_id == b.dbc_id && a != b
}

/// The log of the double spends that peers have reported: a set of pairs
/// that only grows.
#[derive(Debug)]
pub struct DoubleSpendLog {
    pairs: Vec<(SignedSpend, SignedSpend)>,
}

impl View for DoubleSpendLog {
    type V = Set<(SignedSpend, SignedSpend)>;

    closed spec fn view(&self) -> Set<(SignedSpend, SignedSpend)> {
        self.pairs@.to_set()
    }
}

impl DoubleSpendLog {
    /// A log without entries.
    pub fn new() -> (log: DoubleSpendLog)
        ensures
            log@ == Set::<(SignedSpend, SignedSpend)>::empty(),
    {
        DoubleSpendLog { pairs: Vec::new() }
    }

    /// Whether the log holds the pair.
    pub fn contains(&self, a: &SignedSpend, b: &SignedSpend) -> (found: bool)
        ensures
            found == self@.contains((*a, *b)),
    {
        let mut i: usize = 0;
        while i < self.pairs.len()
            invariant
                i <= self.pairs.len(),
                forall|j: int| 0 <= j < i ==> self.pairs@[j] != (*a, *b),
            decreases self.pairs.len() - i,
        {
            if self.pairs[i].0.equals(a) && self.pairs[i].1.equals(b) {
                return true;
            }
            i += 1;
        }
        false
    }

    /// Records a reported double spend. The pair has to be one: two
    /// different spends of one identifier. A pair that is logged already
    /// changes nothing.
    pub fn try_add_double(&mut self, a: &SignedSpend, b: &SignedSpend) -> (result: Result<(), Error>)
        ensures
            result is Ok <==> is_double_spend(*a, *b),
            result matches Err(error) ==> error == Error::NotADoubleSpend && final(self)@ == old(self)@,
            result is Ok ==> final(self)@ == old(self)@.insert((*a, *b)),
    {
        if !a.dbc_id.equals(&b.dbc_id) || a.equals(b) {
            return Err(Error::NotADoubleSpend);
        }
        if self.contains(a, b) {
            return Ok(());
        }
        let ghost before = self.pairs@;
        self.pairs.push((*a, *b));
        proof {
            assert forall|pair: (SignedSpend, SignedSpend)|
                self.pairs@.contains(pair) <==> before.contains(pair) || pair == (*a, *b) by {
                if before.contains(pair) {
                    let k = choose|k: int| 0 <= k < before.len() && before[k] == pair;
                    assert(self.pairs@[k] == pair);
                }
                if pair == (*a, *b) {
                    assert(self.pairs@[before.len() as int] == pair);
                }
            }
        }
        Ok(())
    }
}

/// The place of the register with the given address in a list of
/// registers.
pub open spec fn register_index(registers: Seq<Register>, address: RegisterAddress) -> Option<int> {
    first_index(registers, |register: Register| register.spec_address() == address)
}

/// Whether `last` is what the store `first` has become once the edits of
/// `ops` were applied to it one after the other, where `digest` gives each
/// operation the bytes that its signature has to cover.
pub open spec fn after_edits(
    first: RegisterStore,
    ops: Seq<RegisterOp>,
    digest: spec_fn(RegisterOp) -> Seq<u8>,
    last: RegisterStore,
) -> bool
    decreases ops.len(),
{
    if ops.len() == 0 {
        last == first
    } else {
        exists|middle: RegisterStore, result: Result<(), ProtocolError>|
            after_edits(first, ops.drop_last(), digest, middle) && #[trigger] middle.edited_over(
                ops.last(),
                digest(ops.last()),
                last,
                result,
            )
    }
}

/// What a run of edits makes of the register at an address: the register
/// stays where it is in the store, with its owner and permissions, and holds
/// the nodes that the operations of the run bring to it.
pub proof fn lemma_edits_reach_one_register(
    first: RegisterStore,
    ops: Seq<RegisterOp>,
    digest: spec_fn(RegisterOp) -> Seq<u8>,
    last: RegisterStore,
    address: RegisterAddress,
)
    requires
        after_edits(first, ops, digest, last),
        first.at(address) is Some,
    ensures
        register_index(last.replicas(), address) == register_index(first.replicas(), address),
        last.at(address) matches Some(edited) && (first.at(address) matches Some(before) && edited.compatible(
            &before,
        ) && edited.nodes() == after_ops(
            before.spec_owner(),
            address,
            before.spec_permissions(),
            before.nodes(),
            ops,
            digest,
        )),
        last.replicas().len() == first.replicas().len(),
        forall|j: int|
            0 <= j < first.replicas().len() ==> (#[trigger] last.replicas()[j]).spec_address()
                == first.replicas()[j].spec_address(),
    decreases ops.len(),
{
    lemma_first_index(first.replicas(), |register: Register| register.spec_address() == address);
    if ops.len() > 0 {
        let (middle, result) = choose|middle: RegisterStore, result: Result<(), ProtocolError>|
            after_edits(first, ops.drop_last(), digest, middle) && #[trigger] middle.edited_over(
                ops.last(),
                digest(ops.last()),
                last,
                result,
            );
        lemma_edits_reach_one_register(first, ops.drop_last(), digest, middle, address);
        let op = ops.last();
        let k = register_index(first.replicas(), address)->Some_0;
        lemma_first_index(middle.replicas(), |register: Register| register.spec_address() == address);
        lemma_first_index(middle.replicas(), |register: Register| register.spec_address() == op.address);
        assert forall|j: int| 0 <= j < middle.replicas().len() implies (#[trigger] last.replicas()[j]).spec_address()
            == middle.replicas()[j].spec_address() by {}
        lemma_first_index_alike(
            last.replicas(),
            |register: Register| register.spec_address() == address,
            middle.replicas(),
            |register: Register| register.spec_address() == address,
        );
        let before = middle.replicas()[k];
        if op.address != address {
            assert(last.replicas()[k] == before);
        }
    }
}

/// Nodes converge: two stores that hold the same register at an address
/// hold the same nodes there after they have taken the same edits, in
/// whatever order each took them, as long as no two of the edits that the
/// register takes bring different nodes under one hash. Both stores hash an
/// operation to the same bytes.
pub proof fn lemma_stores_converge(
    one: RegisterStore,
    other: RegisterStore,
    ops: Seq<RegisterOp>,
    permuted: Seq<RegisterOp>,
    digest: spec_fn(RegisterOp) -> Seq<u8>,
    one_after: RegisterStore,
    other_after: RegisterStore,
    address: RegisterAddress,
)
    requires
        one.at(address) is Some,
        other.at(address) is Some,
        one.at(address)->Some_0.alike(&other.at(address)->Some_0),
        after_edits(one, ops, digest, one_after),
        after_edits(other, permuted, digest, other_after),
        ops.to_multiset() == permuted.to_multiset(),
        no_collision(
            one.at(address)->Some_0.spec_owner(),
            address,
            one.at(address)->Some_0.spec_permissions(),
            ops,
            digest,
        ),
    ensures
        one_after.at(address) is Some,
        other_after.at(address) is Some,
        one_after.at(address)->Some_0.alike(&other_after.at(address)->Some_0),
{
    lemma_edits_reach_one_register(one, ops, digest, one_after, address);
    lemma_edits_reach_one_register(other, permuted, digest, other_after, address);
    let register = one.at(address)->Some_0;
    lemma_first_index(one.replicas(), |r: Register| r.spec_address() == address);
    lemma_first_index(other.replicas(), |r: Register| r.spec_address() == address);
    lemma_order_is_irrelevant(
        register.spec_owner(),
        address,
        register.spec_permissions(),
        register.nodes(),
        ops,
        permuted,
        digest,
    );
}

/// Nodes of one byte order converge: where both stores check each signature
/// over the operation's bytes for signing in the same byte order, two stores
/// that hold the same register at an address hold the same nodes there after
/// the same edits, in whatever order each took them, as long as no two of
/// the edits that the register takes bring different nodes under one hash.
pub proof fn lemma_stores_of_one_byte_order_converge(
    one: RegisterStore,
    other: RegisterStore,
    ops: Seq<RegisterOp>,
    permuted: Seq<RegisterOp>,
    little_endian: bool,
    one_after: RegisterStore,
    other_after: RegisterStore,
    address: RegisterAddress,
)
    requires
        one.at(address) is Some,
        other.at(address) is Some,
        one.at(address)->Some_0.alike(&other.at(address)->Some_0),
        after_edits(one, ops, |op: RegisterOp| op.signed_bytes(little_endian), one_after),
        after_edits(other, permuted, |op: RegisterOp| op.signed_bytes(little_endian), other_after),
        ops.to_multiset() == permuted.to_multiset(),
        no_collision(
            one.at(address)->Some_0.spec_owner(),
            address,
            one.at(address)->Some_0.spec_permissions(),
            ops,
            |op: RegisterOp| op.signed_bytes(little_endian),
        ),
    ensures
        forall|op: RegisterOp| op.signs_over(#[trigger] op.signed_bytes(little_endian)),
        one_after.at(address) is Some,
        other_after.at(address) is Some,
        one_after.at(address)->Some_0.alike(&other_after.at(address)->Some_0),
{
    lemma_stores_converge(
        one,
        other,
        ops,
        permuted,
        |op: RegisterOp| op.signed_bytes(little_endian),
        one_after,
        other_after,
        address,
    );
}

/// The store of registers: one replica at an address.
#[derive(Debug)]
pub struct RegisterStore {
    registers: Vec<Register>,
}

impl RegisterStore {
    /// The replicas, in the order in which they were created.
    pub closed spec fn replicas(&self) -> Seq<Register> {
        self.registers@
    }

    /// The replica at an address, if there is one.
    pub open spec fn at(&self, address: RegisterAddress) -> Option<Register> {
        match register_index(self.replicas(), address) {
            Some(i) => Some(self.replicas()[i]),
            None => None,
        }
    }

    /// A store without registers.
    pub fn new() -> (store: RegisterStore)
        ensures
            store.replicas() == Seq::<Register>::empty(),
    {
        RegisterStore { registers: Vec::new() }
    }

    /// The place of the register at an address.
    fn find(&self, address: &RegisterAddress) -> (place: Option<usize>)
        ensures
            place is Some == register_index(self.registers@, *address) is Some,
            place matches Some(i) ==> register_index(self.registers@, *address) == Some(i as int) && i
                < self.registers.len() && self.registers@[i as int].spec_address() == *address,
    {
        let mut i: usize = 0;
        while i < self.registers.len()
            invariant
                i <= self.registers.len(),
                forall|j: int| 0 <= j < i ==> (#[trigger] self.registers@[j]).spec_address() != *address,
            decreases self.registers.len() - i,
        {
            if self.registers[i].address().equals(address) {
                proof {
                    lemma_first_index(self.registers@, |register: Register| register.spec_address() == *address);
                }
                return Some(i);
            }
            i += 1;
        }
        proof {
            lemma_first_index(self.registers@, |register: Register| register.spec_address() == *address);
        }
        None
    }

    /// Whether `result` and `after` are what the creation of `register` gives
    /// on this store. Where a register with the same owner and permissions is
    /// at the address already, nothing changes; where another is, the creation
    /// fails with `RegisterAlreadyExists`; else a copy of the register is
    /// stored behind the others.
    pub open spec fn created(&self, register: Register, after: RegisterStore, result: Result<(), ProtocolError>) -> bool {
        match self.at(register.spec_address()) {
            Some(existing) => after.replicas() == self.replicas() && if existing.compatible(&register) {
                result is Ok
            } else {
                result == Err::<(), ProtocolError>(ProtocolError::RegisterAlreadyExists(register.spec_address()))
            },
            None => {
                &&& result is Ok
                &&& after.replicas().len() == self.replicas().len() + 1
                &&& after.replicas().drop_last() == self.replicas()
                &&& after.replicas().last().alike(&register)
                &&& after.at(register.spec_address()) == Some(after.replicas().last())
            },
        }
    }

    /// Whether `result` and `after` are what an edit gives on this store,
    /// where `signed_bytes` are the bytes that the operation's signature has
    /// to cover: `RegisterNotFound` where no register is at the operation's
    /// address; else what the register there says to the operation. No other
    /// register changes.
    pub open spec fn edited_over(
        &self,
        op: RegisterOp,
        signed_bytes: Seq<u8>,
        after: RegisterStore,
        result: Result<(), ProtocolError>,
    ) -> bool {
        &&& after.replicas().len() == self.replicas().len()
        &&& match register_index(self.replicas(), op.address) {
            None => result == Err::<(), ProtocolError>(ProtocolError::RegisterNotFound(op.address))
                && after.replicas() == self.replicas(),
            Some(i) => {
                let before = self.replicas()[i];
                let edited = after.replicas()[i];
                &&& 0 <= i < self.replicas().len()
                &&& result == op_verdict(
                    before.spec_owner(),
                    before.spec_address(),
                    before.spec_permissions(),
                    op,
                    signed_bytes,
                )
                &&& edited.compatible(&before)
                &&& edited.nodes() == after_op(
                    before.spec_owner(),
                    before.spec_address(),
                    before.spec_permissions(),
                    before.nodes(),
                    op,
                    signed_bytes,
                )
                &&& forall|j: int|
                    0 <= j < self.replicas().len() && j != i ==> after.replicas()[j] == self.replicas()[j]
            },
        }
    }

    /// Creates a register in its initial state.
    pub fn create(&mut self, register: &Register) -> (result: Result<(), ProtocolError>)
        ensures
            old(self).created(*register, *final(self), result),
    {
        let address = *register.address();
        match self.find(&address) {
            Some(i) => {
                let existing = &self.registers[i];
                if existing.owner().equals(&register.owner()) && existing.permissions().equals(
                    register.permissions(),
                ) {
                    Ok(())
                } else {
                    Err(ProtocolError::RegisterAlreadyExists(address))
                }
            },
            None => {
                let ghost before = self.registers@;
                let copy = register.duplicate();
                self.registers.push(copy);
                proof {
                    assert(self.registers@.drop_last() =~= before);
                    lemma_first_index_push(before, |r: Register| r.spec_address() == address, copy);
                }
                Ok(())
            },
        }
    }

    /// Applies an edit whose signature has to cover `signed_bytes` to the
    /// register it is for.
    pub fn edit_over(&mut self, op: &RegisterOp, signed_bytes: &Vec<u8>) -> (result: Result<(), ProtocolError>)
        ensures
            old(self).edited_over(*op, signed_bytes@, *final(self), result),
    {
        match self.find(&op.address) {
            None => Err(ProtocolError::RegisterNotFound(op.address)),
            Some(i) => {
                let mut register = self.registers.remove(i);
                let result = register.apply_op_over(op, signed_bytes);
                self.registers.insert(i, register);
                result
            },
        }
    }

    /// Whether `after` and `result` are what an edit leaves of this store,
    /// the signature checked over the operation's bytes for signing: the
    /// hash of its signing input, in one of the two byte orders.
    pub open spec fn edited(&self, op: RegisterOp, after: RegisterStore, result: Result<(), ProtocolError>) -> bool {
        exists|signed_bytes: Seq<u8>|
            op.signs_over(signed_bytes) && #[trigger] self.edited_over(op, signed_bytes, after, result)
    }

    /// Applies an edit to the register it is for, the signature checked over
    /// the operation's bytes for signing: the outcome is that of `edit_over`
    /// with those bytes.
    pub fn edit(&mut self, op: &RegisterOp) -> (result: Result<(), ProtocolError>)
        ensures
            old(self).edited(*op, *final(self), result),
    {
        let bytes = op.bytes_for_signing();
        self.edit_over(op, &bytes)
    }

    /// A copy of the register at an address: `RegisterNotFound` where there
    /// is none.
    pub fn read(&self, address: &RegisterAddress) -> (result: Result<Register, ProtocolError>)
        ensures
            match self.at(*address) {
                Some(stored) => result matches Ok(register) && register.alike(&stored),
                None => result matches Err(error) && error == ProtocolError::RegisterNotFound(*address),
            },
    {
        match self.find(address) {
            Some(i) => Ok(self.registers[i].duplicate()),
            None => Err(ProtocolError::RegisterNotFound(*address)),
        }
    }
}

/// Everything that a node stores.
#[derive(Debug)]
pub struct DataStorage {
    /// The chunks.
    pub chunks: ChunkStore,
    /// The registers.
    pub registers: RegisterStore,
    /// The spends.
    pub spends: SpendStore,
    /// The double spends that peers have reported.
    pub double_spends: DoubleSpendLog,
}

impl DataStorage {
    /// An empty storage.
    pub fn new() -> (storage: DataStorage)
        ensures
            storage.chunks@ == Map::<ChunkAddress, Seq<u8>>::empty(),
            storage.registers.replicas() == Seq::<Register>::empty(),
            storage.spends@ == Map::<DbcAddress, SignedSpend>::empty(),
            storage.double_spends@ == Set::<(SignedSpend, SignedSpend)>::empty(),
    {
        DataStorage {
            chunks: ChunkStore::new(),
            registers: RegisterStore::new(),
            spends: SpendStore::new(),
            double_spends: DoubleSpendLog::new(),
        }
    }

    /// Whether `response` is what the command `cmd` gives on the storage
    /// `self`, and `after` what the storage holds then. The command goes to
    /// the store of its kind; the other stores and the log stay.
    pub open spec fn carried_out(&self, cmd: Cmd, after: DataStorage, response: CmdResponse) -> bool {
        &&& after.double_spends@ == self.double_spends@
        &&& match cmd {
            Cmd::Chunk(chunk) => {
                &&& response matches CmdResponse::ChunkStored(result)
                &&& (after.chunks@, result) == chunk_write(self.chunks@, chunk)
                &&& after.registers == self.registers
                &&& after.spends == self.spends
            },
            Cmd::Register(RegisterCmd::Create { register, .. }) => {
                &&& response matches CmdResponse::CreateRegister(result)
                &&& self.registers.created(register, after.registers, result)
                &&& after.chunks == self.chunks
                &&& after.spends == self.spends
            },
            Cmd::Register(RegisterCmd::Edit(op)) => {
                &&& response matches CmdResponse::EditRegister(result)
                &&& self.registers.edited(op, after.registers, result)
                &&& after.chunks == self.chunks
                &&& after.spends == self.spends
            },
            Cmd::Dbc { signed_spend, .. } => {
                &&& response matches CmdResponse::Spend(result)
                &&& exists|address: DbcAddress|
                    address.0@ == signed_spend.spec_address() && (after.spends@, result) == #[trigger] spend_write(
                        self.spends@,
                        address,
                        signed_spend,
                    )
                &&& after.chunks == self.chunks
                &&& after.registers == self.registers
            },
        }
    }

    /// Whether `response` is what the storage answers to `query`.
    pub open spec fn answers(&self, query: Query, response: QueryResponse) -> bool {
        match query {
            Query::GetChunk(address) => {
                &&& response matches QueryResponse::GetChunk(result)
                &&& result is Ok <==> self.chunks@.dom().contains(address)
                &&& result matches Ok(chunk) ==> chunk.address == address && chunk.value@ == self.chunks@[address]
                &&& result matches Err(error) ==> error == ProtocolError::ChunkNotFound(address)
            },
            Query::GetRegister(address) => {
                &&& response matches QueryResponse::GetRegister(result)
                &&& match self.registers.at(address) {
                    Some(stored) => result matches Ok(register) && register.alike(&stored),
                    None => result matches Err(error) && error == ProtocolError::RegisterNotFound(address),
                }
            },
            Query::GetDbcSpend(address) => {
                &&& response matches QueryResponse::GetDbcSpend(result)
                &&& result is Ok <==> self.spends@.dom().contains(address)
                &&& result matches Ok(spend) ==> spend == self.spends@[address]
                &&& result matches Err(error) ==> error == ProtocolError::SpendNotFound(address)
            },
        }
    }

    /// Carries out a command on the store of its kind, and says in the
    /// response of that kind how it went. The other stores do not change.
    pub fn write(&mut self, cmd: &Cmd) -> (response: CmdResponse)
        ensures
            old(self).carried_out(*cmd, *final(self), response),
    {
        match cmd {
            Cmd::Chunk(chunk) => CmdResponse::ChunkStored(self.chunks.write(chunk)),
            Cmd::Register(RegisterCmd::Create { register, .. }) => CmdResponse::CreateRegister(
                self.registers.create(register),
            ),
            Cmd::Register(RegisterCmd::Edit(op)) => {
                CmdResponse::EditRegister(self.registers.edit(op))
            },
            Cmd::Dbc { signed_spend, .. } => CmdResponse::Spend(self.spends.write(signed_spend)),
        }
    }

    /// Answers a query from the store of its kind. Reads are open to every
    /// requester.
    pub fn read(&self, query: &Query, requester: User) -> (response: QueryResponse)
        ensures
            self.answers(*query, response),
    {
        match query {
            Query::GetChunk(address) => QueryResponse::GetChunk(self.chunks.read(address)),
            Query::GetRegister(address) => QueryResponse::GetRegister(self.registers.read(address)),
            Query::GetDbcSpend(address) => QueryResponse::GetDbcSpend(self.spends.read(address)),
        }
    }

    /// Records a double spend that a peer has reported, if the two spends
    /// are one. The stores do not change.
    pub fn try_add_double(&mut self, a: &SignedSpend, b: &SignedSpend) -> (result: Result<(), Error>)
        ensures
            result is Ok <==> is_double_spend(*a, *b),
            result matches Err(error) ==> error == Error::NotADoubleSpend && final(self).double_spends@ == old(self).double_spends@,
            result is Ok ==> final(self).double_spends@ == old(self).double_spends@.insert((*a, *b)),
            final(self).chunks == old(self).chunks,
            final(self).registers == old(self).registers,
            final(self).spends == old(self).spends,
    {
        self.double_spends.try_add_double(a, b)
    }
}

} // verus!
