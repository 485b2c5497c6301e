//! The messages that travel between clients and nodes: requests, which are
//! commands, queries or events, and the responses that mirror them.

use crate::address::{ChunkAddress, DbcAddress, NetworkAddress, RegisterAddress, XorName, content_name};
use crate::dbc::{dbc_address, spec_dbc_address, SignedSpend, Transaction};
use crate::error::ProtocolError;
use crate::keys::Signature;
use crate::register::{Register, RegisterOp};
use vstd::prelude::*;

verus! {

/// A chunk: opaque bytes stored under the XOR-name of their content.
#[derive(Clone, Debug, PartialEq, Eq)]
pub struct Chunk {
    /// The address that the chunk claims.
    pub address: ChunkAddress,
    /// The content.
    pub value: Vec<u8>,
}

impl Chunk {
    /// The chunk of a content, at the content's address.
    pub fn new(value: Vec<u8>) -> (chunk: Chunk)
        ensures
            chunk.value == value,
            chunk.address.0@ == content_name(value@),
    {
        let address = ChunkAddress::new(XorName::from_content(&value));
        Chunk { address, value }
    }

    /// The address of the chunk.
    pub fn address(&self) -> (address: &ChunkAddress)
        ensures
            *address == self.address,
    {
        &self.address
    }

    /// The content of the chunk.
    pub fn value(&self) -> (value: &Vec<u8>)
        ensures
            *value == self.value,
    {
        &self.value
    }

    /// A copy of the chunk.
    pub fn duplicate(&self) -> (copy: Chunk)
        ensures
            copy.address == self.address,
            copy.value@ == self.value@,
    {
        Chunk { address: self.address, value: self.value.clone() }
    }
}

/// A command on a register.
#[derive(Clone, Debug, PartialEq, Eq)]
pub enum RegisterCmd {
    /// Create a register.
    Create {
        /// The register in its initial state.
        register: Register,
        /// The owner's signature over the register.
        signature: Signature,
    },
    /// Edit a register.
    Edit(RegisterOp),
}

impl RegisterCmd {
    /// The address of the register that the command is for.
    pub open spec fn spec_dst(&self) -> RegisterAddress {
        match self {
            RegisterCmd::Create { register, .. } => register.spec_address(),
            RegisterCmd::Edit(op) => op.address,
        }
    }

    /// The address of the register that the command is for.
    pub fn dst(&self) -> (address: RegisterAddress)
        ensures
            address == self.spec_dst(),
    {
        match self {
            RegisterCmd::Create { register, .. } => *register.address(),
            RegisterCmd::Edit(op) => op.address(),
        }
    }
}

/// A command: a request to change what the network stores.
#[derive(Clone, Debug, PartialEq, Eq)]
pub enum Cmd {
    /// Store a chunk.
    Chunk(Chunk),
    /// Create or edit a register.
    Register(RegisterCmd),
    /// Record a spend.
    Dbc {
        /// The spend.
        signed_spend: SignedSpend,
        /// The transaction in which the spent identifier was created.
        source_tx: Transaction,
    },
}

/// A query: a request to read what the network stores.
#[derive(Clone, Copy, Debug, PartialEq, Eq)]
pub enum Query {
    /// Read the chunk at an address.
    GetChunk(ChunkAddress),
    /// Read the register at an address.
    GetRegister(RegisterAddress),
    /// Read the spend at an address.
    GetDbcSpend(DbcAddress),
}

/// An event that one node reports to others.
#[derive(Clone, Copy, Debug, PartialEq, Eq)]
pub enum Event {
    /// Two spends of one identifier were seen.
    DoubleSpendAttempted(SignedSpend, SignedSpend),
}

/// A request.
#[derive(Clone, Debug, PartialEq, Eq)]
pub enum Request {
    /// A command.
    Cmd(Cmd),
    /// A query.
    Query(Query),
    /// An event.
    Event(Event),
}

/// The outcome of a command.
#[derive(Clone, Copy, Debug, PartialEq, Eq)]
pub enum CmdResponse {
    /// The outcome of storing a chunk.
    ChunkStored(Result<(), ProtocolError>),
    /// The outcome of creating a register.
    CreateRegister(Result<(), ProtocolError>),
    /// The outcome of editing a register.
    EditRegister(Result<(), ProtocolError>),
    /// The outcome of recording a spend.
    Spend(Result<(), ProtocolError>),
}

/// The outcome of a query.
#[derive(Debug, PartialEq, Eq)]
pub enum QueryResponse {
    /// The chunk that was asked for.
    GetChunk(Result<Chunk, ProtocolError>),
    /// The register that was asked for.
    GetRegister(Result<Register, ProtocolError>),
    /// The spend that was asked for.
    GetDbcSpend(Result<SignedSpend, ProtocolError>),
}

/// A response.
#[derive(Debug, PartialEq, Eq)]
pub enum Response {
    /// The outcome of a command.
    Cmd(CmdResponse),
    /// The outcome of a query.
    Query(QueryResponse),
}

impl QueryResponse {
    /// Whether two outcomes say the same: the same error, the same spend,
    /// chunks of one address and content, or registers of one identity,
    /// owner, permissions and nodes.
    pub open spec fn alike(&self, other: &QueryResponse) -> bool {
        match (*self, *other) {
            (QueryResponse::GetChunk(Ok(a)), QueryResponse::GetChunk(Ok(b))) => a.address == b.address && a.value@
                == b.value@,
            (QueryResponse::GetChunk(Err(a)), QueryResponse::GetChunk(Err(b))) => a == b,
            (QueryResponse::GetRegister(Ok(a)), QueryResponse::GetRegister(Ok(b))) => a.alike(&b),
            (QueryResponse::GetRegister(Err(a)), QueryResponse::GetRegister(Err(b))) => a == b,
            (QueryResponse::GetDbcSpend(a), QueryResponse::GetDbcSpend(b)) => a == b,
            _ => false,
        }
    }
}

impl Clone for QueryResponse {
    fn clone(&self) -> (copy: QueryResponse)
        ensures
            copy.alike(self),
    {
        match self {
            QueryResponse::GetChunk(Ok(chunk)) => QueryResponse::GetChunk(Ok(chunk.duplicate())),
            QueryResponse::GetChunk(Err(error)) => QueryResponse::GetChunk(Err(*error)),
            QueryResponse::GetRegister(Ok(register)) => QueryResponse::GetRegister(Ok(register.duplicate())),
            QueryResponse::GetRegister(Err(error)) => QueryResponse::GetRegister(Err(*error)),
            QueryResponse::GetDbcSpend(Ok(spend)) => QueryResponse::GetDbcSpend(Ok(*spend)),
            QueryResponse::GetDbcSpend(Err(error)) => QueryResponse::GetDbcSpend(Err(*error)),
        }
    }
}

impl Response {
    /// Whether two responses say the same.
    pub open spec fn alike(&self, other: &Response) -> bool {
        match (*self, *other) {
            (Response::Cmd(a), Response::Cmd(b)) => a == b,
            (Response::Query(a), Response::Query(b)) => a.alike(&b),
            _ => false,
        }
    }
}

impl Clone for Response {
    fn clone(&self) -> (copy: Response)
        ensures
            copy.alike(self),
    {
        match self {
            Response::Cmd(outcome) => Response::Cmd(*outcome),
            Response::Query(outcome) => Response::Query(outcome.clone()),
        }
    }
}

impl Request {
    /// The canonical bytes of the address that the request is for.
    pub open spec fn spec_dst(&self) -> Seq<u8> {
        match self {
            Request::Cmd(Cmd::Chunk(chunk)) => chunk.address.0@,
            Request::Cmd(Cmd::Register(cmd)) => content_name(cmd.spec_dst().identity()),
            Request::Cmd(Cmd::Dbc { signed_spend, .. }) => spec_dbc_address(signed_spend.dbc_id),
            Request::Query(Query::GetChunk(address)) => address.0@,
            Request::Query(Query::GetRegister(address)) => content_name(address.identity()),
            Request::Query(Query::GetDbcSpend(address)) => address.0@,
            Request::Event(Event::DoubleSpendAttempted(a, _)) => spec_dbc_address(a.dbc_id),
        }
    }

    /// The address that the request is for: the peers closest to it are the
    /// ones to ask.
    pub fn dst(&self) -> (address: NetworkAddress)
        ensures
            address.bytes() == self.spec_dst(),
            match self {
                Request::Cmd(Cmd::Chunk(_)) => address is ChunkAddress,
                Request::Cmd(Cmd::Register(_)) => address is RegisterAddress,
                Request::Cmd(Cmd::Dbc { .. }) => address is DbcAddress,
                Request::Query(Query::GetChunk(_)) => address is ChunkAddress,
                Request::Query(Query::GetRegister(_)) => address is RegisterAddress,
                Request::Query(Query::GetDbcSpend(_)) => address is DbcAddress,
                Request::Event(_) => address is DbcAddress,
            },
    {
        match self {
            Request::Cmd(Cmd::Chunk(chunk)) => NetworkAddress::from_chunk_address(chunk.address),
            Request::Cmd(Cmd::Register(cmd)) => NetworkAddress::from_register_address(cmd.dst()),
            Request::Cmd(Cmd::Dbc { signed_spend, .. }) => NetworkAddress::from_dbc_address(
                dbc_address(&signed_spend.dbc_id),
            ),
            Request::Query(Query::GetChunk(address)) => NetworkAddress::from_chunk_address(*address),
            Request::Query(Query::GetRegister(address)) => NetworkAddress::from_register_address(*address),
            Request::Query(Query::GetDbcSpend(address)) => NetworkAddress::from_dbc_address(*address),
            Request::Event(Event::DoubleSpendAttempted(a, _)) => NetworkAddress::from_dbc_address(
                dbc_address(&a.dbc_id),
            ),
        }
    }
}

} // verus!
