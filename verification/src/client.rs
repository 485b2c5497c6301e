//! The client's handle on a register: a replica to work on offline, and the
//! queue of the commands that have not been published yet.
//!
//! Writes are applied to the replica at once and queued. A push publishes
//! the queued commands to the close group, oldest first; a command that not
//! every peer accepted goes back to the head of the queue, so that the next
//! push starts with it.

use crate::address::{RegisterAddress, XorName};
use crate::error::{Error, ProtocolError};
use crate::keys::PublicKey;
use crate::messages::RegisterCmd;
use crate::quorum::{
    holds_register, publish_verdict, published_to_close_group, register_from_close_group, summary_error, Expected,
    Reply,
};
use crate::register::{
    frontier, hash_set, hashes_of, lemma_listing_counts, lists_frontier, merged, with_node, Action, Entry, EntryHash,
    Permissions, Register, User, UserRights,
};
use crate::scan::first_index;
use std::collections::VecDeque;
use vstd::prelude::*;

verus! {

/// What the close group answered to a request, or the failure to reach it.
pub type Sent = Result<Vec<Reply>, Error>;

/// The replica that a fetch of a register gives: the first that a peer
/// gave.
pub open spec fn fetched_register(fetched: Sent) -> Option<Register> {
    match fetched {
        Ok(replies) => match first_index(replies@, |reply: Reply| holds_register(reply)) {
            Some(i) => Some(replies@[i]->Ok_0->Query_0->GetRegister_0->Ok_0),
            None => None,
        },
        Err(_) => None,
    }
}

/// The kind of acceptance that a command on a register waits for.
pub open spec fn expected_for(cmd: RegisterCmd) -> Expected {
    match cmd {
        RegisterCmd::Create { .. } => Expected::CreateRegister,
        RegisterCmd::Edit(_) => Expected::EditRegister,
    }
}

/// Whether a command was published: the close group was reached and every
/// peer of it accepted.
pub open spec fn sent_verdict(expected: Expected, sent: Sent) -> Result<(), Error> {
    match sent {
        Ok(replies) => publish_verdict(expected, replies@),
        Err(error) => Err(error),
    }
}

/// A command that was taken off the queue and went back to it stands where
/// it stood: a push that fails leaves the queue as it was.
pub proof fn lemma_failed_push_restores(pending: Seq<RegisterCmd>)
    requires
        pending.len() > 0,
    ensures
        seq![pending[0]] + pending.drop_first() == pending,
{
}

/// How a sync goes on after the fetch of the register.
pub enum SyncStep {
    /// The replica of the network was merged in: the queue is to be pushed.
    Push,
    /// The network holds no replica: the register is to be created there
    /// with the command that holds this copy, and the close group's answer
    /// handed to `created`.
    Create(Register),
}

/// A register to work on offline. What is done to it is applied to the local
/// replica and queued until it is pushed.
#[derive(Debug)]
pub struct ClientRegister {
    signer: PublicKey,
    register: Register,
    ops: VecDeque<RegisterCmd>,
}

impl ClientRegister {
    /// The public key of the client, under which it writes.
    pub closed spec fn spec_signer(&self) -> PublicKey {
        self.signer
    }

    /// The local replica.
    pub closed spec fn replica(&self) -> Register {
        self.register
    }

    /// The commands that are not published yet, oldest first.
    pub closed spec fn pending(&self) -> Seq<RegisterCmd> {
        self.ops@
    }

    /// Whether `result` and `after` are what a write of `entry` atop the
    /// entries `children` gives. A client without the right to write is
    /// denied and nothing changes. Else the node joins the replica, and the
    /// edit that brings it to the network is queued behind the others,
    /// unsigned, with the client as its source.
    pub open spec fn wrote_atop(
        &self,
        after: ClientRegister,
        entry: Seq<u8>,
        children: Set<Seq<u8>>,
        result: Result<(), Error>,
    ) -> bool {
        let writer = User::Key(self.spec_signer());
        &&& after.spec_signer() == self.spec_signer()
        &&& after.replica().compatible(&self.replica())
        &&& if self.replica().may_write(writer) {
            &&& result is Ok
            &&& after.replica().nodes() == with_node(self.replica().nodes(), (children, entry))
            &&& after.pending().len() == self.pending().len() + 1
            &&& after.pending().drop_last() == self.pending()
            &&& after.pending().last() matches RegisterCmd::Edit(op)
            &&& op.address == self.replica().spec_address()
            &&& op.crdt_op@ == (children, entry)
            &&& op.source == writer
            &&& op.signature is None
        } else {
            &&& result == Err::<(), Error>(Error::Protocol(ProtocolError::AccessDenied(writer)))
            &&& after.replica().nodes() == self.replica().nodes()
            &&& after.pending() == self.pending()
        }
    }

    /// A new register that the client owns and to which anyone may write.
    pub fn create(signer: PublicKey, name: XorName, tag: u64) -> (created: Result<ClientRegister, Error>)
        ensures
            created matches Ok(register) && {
                &&& register.spec_signer() == signer
                &&& register.replica().spec_owner() == User::Key(signer)
                &&& register.replica().spec_address() == (RegisterAddress { name, tag })
                &&& register.replica().spec_permissions() == crate::register::no_rights().insert(User::Anyone, (UserRights { write: true }))
                &&& register.replica().nodes() == crate::register::no_nodes()
                &&& register.pending() == Seq::<RegisterCmd>::empty()
            },
    {
        let register = Register::new(User::Key(signer), name, tag, Permissions::anyone_can_write());
        Ok(ClientRegister { signer, register, ops: VecDeque::new() })
    }

    /// The handle on a register that the network holds, from the close
    /// group's answer to the fetch: the first replica that a peer gave.
    pub fn retrieve(signer: PublicKey, fetched: Sent) -> (retrieved: Result<ClientRegister, Error>)
        ensures
            match fetched_register(fetched) {
                Some(given) => retrieved matches Ok(register) && register.spec_signer() == signer
                    && register.replica().alike(&given) && register.pending() == Seq::<RegisterCmd>::empty(),
                None => retrieved is Err,
            },
            fetched matches Err(error) ==> (retrieved matches Err(e) && e == error),
            fetched matches Ok(replies) ==> (fetched_register(fetched) is None ==> (retrieved matches Err(e) && e
                == summary_error(Expected::Register, replies@, Error::UnexpectedResponses))),
    {
        match fetched {
            Err(error) => Err(error),
            Ok(replies) => match register_from_close_group(&replies) {
                Ok(register) => Ok(ClientRegister { signer, register, ops: VecDeque::new() }),
                Err(error) => Err(error),
            },
        }
    }

    /// The owner of the register.
    pub fn owner(&self) -> (owner: User)
        ensures
            owner == self.replica().spec_owner(),
    {
        self.register.owner()
    }

    /// The permissions of the register.
    pub fn permissions(&self) -> (permissions: &Permissions)
        ensures
            permissions@ == self.replica().spec_permissions(),
    {
        self.register.permissions()
    }

    /// The name of the register.
    pub fn name(&self) -> (name: &XorName)
        ensures
            *name == self.replica().spec_address().name,
    {
        self.register.name()
    }

    /// The tag of the register.
    pub fn tag(&self) -> (tag: u64)
        ensures
            tag == self.replica().spec_address().tag,
    {
        self.register.tag()
    }

    /// The number of entries in the register.
    pub fn size(&self) -> (size: u64)
        ensures
            crate::register::counts_visible(size as nat, self.replica().nodes()),
    {
        self.register.size()
    }

    /// The entry with the given hash: `NoSuchEntry` where the replica has
    /// received none.
    pub fn get(&self, hash: EntryHash) -> (entry: Result<&Entry, Error>)
        ensures
            entry is Ok <==> self.replica().nodes().dom().contains(hash@),
            entry matches Ok(value) ==> value@ == self.replica().nodes()[hash@].1,
            entry matches Err(error) ==> error == Error::Protocol(ProtocolError::NoSuchEntry(hash)),
    {
        match self.register.get(hash) {
            Ok(entry) => Ok(entry),
            Err(error) => Err(Error::Protocol(error)),
        }
    }

    /// The latest entry, or the latest entries where there are branches,
    /// each with its hash, in ascending order of hash.
    pub fn read(&self) -> (listing: Vec<(EntryHash, Entry)>)
        ensures
            lists_frontier(listing@, self.replica().nodes()),
    {
        self.register.read()
    }

    /// The number of commands that are not published yet.
    pub fn queued(&self) -> (count: usize)
        ensures
            count == self.pending().len(),
    {
        self.ops.len()
    }

    /// Writes an entry atop the latest entry. Where the register has
    /// branches the write fails with `ContentBranchDetected` and nothing
    /// changes: the caller has to merge the branches.
    pub fn write(&mut self, entry: &[u8]) -> (result: Result<(), Error>)
        ensures
            frontier(old(self).replica().nodes()).finite(),
            frontier(old(self).replica().nodes()).len() > 1 ==> {
                &&& result == Err::<(), Error>(Error::Protocol(ProtocolError::ContentBranchDetected))
                &&& final(self).replica() == old(self).replica()
                &&& final(self).pending() == old(self).pending()
                &&& final(self).spec_signer() == old(self).spec_signer()
            },
            frontier(old(self).replica().nodes()).len() <= 1 ==> old(self).wrote_atop(
                *final(self),
                entry@,
                frontier(old(self).replica().nodes()),
                result,
            ),
    {
        let children = self.register.read();
        proof {
            lemma_listing_counts(children@, self.register.nodes());
        }
        if children.len() > 1 {
            return Err(Error::Protocol(ProtocolError::ContentBranchDetected));
        }
        let hashes = hashes_of(&children);
        self.write_atop(entry, hashes)
    }

    /// Writes an entry atop all the latest entries, which merges the
    /// branches: the new entry is then the only latest one.
    pub fn write_merging_branches(&mut self, entry: &[u8]) -> (result: Result<(), Error>)
        ensures
            old(self).wrote_atop(*final(self), entry@, frontier(old(self).replica().nodes()), result),
    {
        let children = self.register.read();
        proof {
            lemma_listing_counts(children@, self.register.nodes());
        }
        let hashes = hashes_of(&children);
        self.write_atop(entry, hashes)
    }

    /// Writes an entry atop the entries with the given hashes.
    pub fn write_atop(&mut self, entry: &[u8], children: Vec<EntryHash>) -> (result: Result<(), Error>)
        ensures
            old(self).wrote_atop(*final(self), entry@, hash_set(children@), result),
    {
        let writer = User::Key(self.signer);
        match self.register.check_user_rights(Action::Write, writer) {
            Err(error) => {
                return Err(Error::Protocol(error));
            },
            Ok(()) => {},
        }
        match self.register.write(vstd::slice::slice_to_vec(entry), children, writer) {
            Err(error) => Err(Error::Protocol(error)),
            Ok((_hash, op)) => {
                let ghost before = self.ops@;
                self.ops.push_back(RegisterCmd::Edit(op));
                proof {
                    assert(self.ops@.drop_last() =~= before);
                }
                Ok(())
            },
        }
    }

    /// Takes in the close group's answer to the fetch of the register, with
    /// which a sync starts. A replica that a peer gave is merged into the
    /// local one. Where none came, the register is to be created on the
    /// network first.
    pub fn sync(&mut self, fetched: Sent) -> (step: SyncStep)
        ensures
            final(self).spec_signer() == old(self).spec_signer(),
            final(self).pending() == old(self).pending(),
            final(self).replica().compatible(&old(self).replica()),
            match fetched_register(fetched) {
                Some(remote) => step is Push && final(self).replica().nodes() == merged(
                    old(self).replica().nodes(),
                    remote.nodes(),
                ),
                None => step matches SyncStep::Create(copy) && copy.alike(&old(self).replica()) && final(self).replica() == old(self).replica(),
            },
    {
        let remote = match fetched {
            Err(_) => None,
            Ok(replies) => match register_from_close_group(&replies) {
                Ok(register) => Some(register),
                Err(_) => None,
            },
        };
        match remote {
            Some(register) => {
                self.register.merge(&register);
                SyncStep::Push
            },
            None => SyncStep::Create(self.register.duplicate()),
        }
    }

    /// Takes in the close group's answer to the creation of the register.
    /// Where every peer accepted, the queue is to be pushed next.
    pub fn created(&mut self, sent: Sent) -> (result: Result<(), Error>)
        ensures
            result == sent_verdict(Expected::CreateRegister, sent),
            final(self).spec_signer() == old(self).spec_signer(),
            final(self).pending() == old(self).pending(),
            final(self).replica().compatible(&old(self).replica()),
            final(self).replica().nodes() == old(self).replica().nodes(),
    {
        let result = match sent {
            Err(error) => Err(error),
            Ok(replies) => published_to_close_group(Expected::CreateRegister, &replies),
        };
        if result.is_ok() {
            let own = self.register.duplicate();
            self.register.merge(&own);
        }
        result
    }

    /// Takes the oldest command off the queue, to be published: none where
    /// the queue is empty, and the push is done.
    pub fn push(&mut self) -> (next: Option<RegisterCmd>)
        ensures
            final(self).spec_signer() == old(self).spec_signer(),
            final(self).replica() == old(self).replica(),
            old(self).pending().len() == 0 ==> next is None && final(self).pending() == old(self).pending(),
            old(self).pending().len() > 0 ==> next == Some(old(self).pending()[0]) && final(self).pending() == old(self).pending().drop_first(),
    {
        let next = self.ops.pop_front();
        proof {
            if old(self).ops@.len() > 0 {
                assert(self.ops@ =~= old(self).ops@.drop_first());
            }
        }
        next
    }

    /// Takes in the close group's answer to a command that `push` handed
    /// out. Where the group was not reached or a peer did not accept, the
    /// command goes back to the place it was taken from, and the error says
    /// why.
    pub fn pushed(&mut self, cmd: RegisterCmd, sent: Sent) -> (result: Result<(), Error>)
        ensures
            result == sent_verdict(expected_for(cmd), sent),
            final(self).spec_signer() == old(self).spec_signer(),
            final(self).replica() == old(self).replica(),
            result is Ok ==> final(self).pending() == old(self).pending(),
            result is Err ==> final(self).pending() == seq![cmd] + old(self).pending(),
    {
        let expected = match &cmd {
            RegisterCmd::Create { .. } => Expected::CreateRegister,
            RegisterCmd::Edit(_) => Expected::EditRegister,
        };
        let result = match sent {
            Err(error) => Err(error),
            Ok(replies) => published_to_close_group(expected, &replies),
        };
        if result.is_err() {
            self.ops.push_front(cmd);
        }
        result
    }

    /// Whether `result` and `after` are what a write of `entry` atop
    /// `children` with the start of a push gives: where the write fails,
    /// its error and its state; else the state after the write without the
    /// oldest queued command, which is handed out.
    pub open spec fn wrote_online(
        &self,
        after: ClientRegister,
        entry: Seq<u8>,
        children: Set<Seq<u8>>,
        result: Result<Option<RegisterCmd>, Error>,
    ) -> bool {
        match result {
            Err(error) => self.wrote_atop(after, entry, children, Err(error)),
            Ok(next) => exists|written: ClientRegister|
                {
                    &&& #[trigger] self.wrote_atop(written, entry, children, Ok(()))
                    &&& next == Some(written.pending()[0])
                    &&& after.pending() == written.pending().drop_first()
                    &&& after.replica() == written.replica()
                    &&& after.spec_signer() == written.spec_signer()
                },
        }
    }

    /// Writes an entry atop the latest entry and starts a push: what comes
    /// back is the first command to publish.
    pub fn write_online(&mut self, entry: &[u8]) -> (result: Result<Option<RegisterCmd>, Error>)
        ensures
            frontier(old(self).replica().nodes()).finite(),
            frontier(old(self).replica().nodes()).len() > 1 ==> {
                &&& result == Err::<Option<RegisterCmd>, Error>(
                    Error::Protocol(ProtocolError::ContentBranchDetected),
                )
                &&& final(self).replica() == old(self).replica()
                &&& final(self).pending() == old(self).pending()
                &&& final(self).spec_signer() == old(self).spec_signer()
            },
            frontier(old(self).replica().nodes()).len() <= 1 ==> old(self).wrote_online(
                *final(self),
                entry@,
                frontier(old(self).replica().nodes()),
                result,
            ),
    {
        let ghost atop = frontier(old(self).replica().nodes());
        match self.write(entry) {
            Err(error) => Err(error),
            Ok(()) => {
                let ghost written = *self;
                assert(old(self).wrote_atop(written, entry@, atop, Ok(())));
                Ok(self.push())
            },
        }
    }

    /// Writes an entry atop all the latest entries and starts a push.
    pub fn write_merging_branches_online(&mut self, entry: &[u8]) -> (result: Result<Option<RegisterCmd>, Error>)
        ensures
            old(self).wrote_online(*final(self), entry@, frontier(old(self).replica().nodes()), result),
    {
        let ghost atop = frontier(old(self).replica().nodes());
        match self.write_merging_branches(entry) {
            Err(error) => Err(error),
            Ok(()) => {
                let ghost written = *self;
                assert(old(self).wrote_atop(written, entry@, atop, Ok(())));
                Ok(self.push())
            },
        }
    }

    /// Writes an entry atop the entries with the given hashes and starts a
    /// push.
    pub fn write_atop_online(&mut self, entry: &[u8], children: Vec<EntryHash>) -> (result: Result<
        Option<RegisterCmd>,
        Error,
    >)
        ensures
            old(self).wrote_online(*final(self), entry@, hash_set(children@), result),
    {
        let ghost atop = hash_set(children@);
        match self.write_atop(entry, children) {
            Err(error) => Err(error),
            Ok(()) => {
                let ghost written = *self;
                assert(old(self).wrote_atop(written, entry@, atop, Ok(())));
                Ok(self.push())
            },
        }
    }
}

} // verus!
