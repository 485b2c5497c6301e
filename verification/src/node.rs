//! The node's request pipeline: what a node does with each request and each
//! event of the network.
//!
//! The node decides; whoever runs it sends the responses, fetches parents
//! from other close groups and reports double spends, and hands back what
//! came of it.

use crate::address::{DbcAddress, XorName};
use crate::dbc::{SignedSpend, Transaction};
use crate::error::{Error, ProtocolError};
use crate::event::NodeEvent;
use crate::messages::{Cmd, CmdResponse, Event, Query, QueryResponse, Request, Response};
use crate::register::User;
use crate::storage::{is_double_spend, DataStorage};
use crate::validation::{validate_spend, validation_verdict, Fetched, PendingValidation, Validation};
use vstd::prelude::*;

verus! {

/// An event of the network, as the node sees it.
#[derive(Debug)]
pub enum NetworkEvent {
    /// A request came in; its response goes back on the channel it came
    /// with.
    RequestReceived {
        /// The request.
        req: Request,
    },
    /// A peer was added to the routing table.
    PeerAdded,
}

/// What is to be done about a request.
pub enum Outcome {
    /// The response is to be sent on the request's channel.
    Reply(Response),
    /// A double spend was attempted: the event is to be sent to the close
    /// group of the spend, and then the response on the request's channel.
    ReportAndReply {
        /// The report of the double spend, for the close group.
        report: Request,
        /// The response, for the client.
        response: Response,
    },
    /// The spend recorded at `address` is to be fetched from its close
    /// group and handed to the node with `pending`.
    FetchParent {
        /// The validation that waits for the parent.
        pending: PendingValidation,
        /// The address of the parent.
        address: DbcAddress,
    },
    /// Nothing is to be sent.
    Nothing,
    /// The request could not be handled; nothing is sent and the error is
    /// the node's own.
    Fail(Error),
}

/// What is to be done about an event of the network.
pub enum Reaction {
    /// What is to be done about the request that came in.
    Handle(Outcome),
    /// A peer was added: the event is to be broadcast, and the peers closest
    /// to the target are to be asked for, which warms the routing table.
    Explore {
        /// The event to broadcast.
        broadcast: NodeEvent,
        /// The address to look around.
        target: XorName,
    },
}

/// A node: its storage, and the decisions of its pipeline.
#[derive(Debug)]
pub struct Node {
    /// What the node stores.
    pub storage: DataStorage,
}

impl Node {
    /// A node with an empty storage.
    pub fn new() -> (node: Node)
        ensures
            node.storage.chunks@.dom() == Set::<crate::address::ChunkAddress>::empty(),
            node.storage.spends@.dom() == Set::<DbcAddress>::empty(),
            node.storage.registers.replicas().len() == 0,
            node.storage.double_spends@ == Set::<(SignedSpend, SignedSpend)>::empty(),
    {
        Node { storage: DataStorage::new() }
    }

    /// Writes to the storage.
    pub fn write(&mut self, cmd: &Cmd) -> (response: CmdResponse)
        ensures
            old(self).storage.carried_out(*cmd, final(self).storage, response),
    {
        self.storage.write(cmd)
    }

    /// Reads from the storage, as anyone may.
    pub fn read(&self, query: &Query) -> (response: QueryResponse)
        ensures
            self.storage.answers(*query, response),
    {
        self.storage.read(query, User::Anyone)
    }

    /// Whether `outcome` is what the end of a validation asks for, and
    /// `after` the storage then. An accepted spend is recorded; if another
    /// spend of the identifier is recorded already, the double spend is
    /// reported to the close group and the client gets the same error. A
    /// refused spend changes nothing, and the client gets the reason.
    pub open spec fn settled(&self, validation: Validation, after: Node, outcome: Outcome) -> bool {
        match validation {
            Validation::AwaitingParent { pending, address } => {
                &&& outcome matches Outcome::FetchParent { pending: waiting, address: wanted }
                &&& waiting == pending
                &&& wanted == address
                &&& after.storage == self.storage
            },
            Validation::Rejected(error) => {
                &&& outcome matches Outcome::Reply(response)
                &&& response == Response::Cmd(CmdResponse::Spend(Err(error)))
                &&& after.storage == self.storage
            },
            Validation::Failed(error) => {
                &&& outcome matches Outcome::Fail(failure)
                &&& failure == error
                &&& after.storage == self.storage
            },
            Validation::Accepted { signed_spend, source_tx } => {
                let cmd = Cmd::Dbc { signed_spend, source_tx };
                exists|result: Result<(), ProtocolError>|
                    {
                        &&& #[trigger] self.storage.carried_out(cmd, after.storage, CmdResponse::Spend(result))
                        &&& match result {
                            Err(ProtocolError::DoubleSpendAttempt { new, existing }) => outcome
                                == (Outcome::ReportAndReply {
                                report: Request::Event(Event::DoubleSpendAttempted(new, existing)),
                                response: Response::Cmd(CmdResponse::Spend(result)),
                            }),
                            _ => outcome == Outcome::Reply(Response::Cmd(CmdResponse::Spend(result))),
                        }
                    }
            },
        }
    }

    /// Acts on a step of a validation.
    fn settle(&mut self, validation: Validation) -> (outcome: Outcome)
        ensures
            old(self).settled(validation, *final(self), outcome),
    {
        match validation {
            Validation::AwaitingParent { pending, address } => Outcome::FetchParent { pending, address },
            Validation::Rejected(error) => Outcome::Reply(Response::Cmd(CmdResponse::Spend(Err(error)))),
            Validation::Failed(error) => Outcome::Fail(error),
            Validation::Accepted { signed_spend, source_tx } => {
                let cmd = Cmd::Dbc { signed_spend, source_tx };
                let written = self.storage.write(&cmd);
                match written {
                    CmdResponse::Spend(Err(ProtocolError::DoubleSpendAttempt { new, existing })) => {
                        let result: Result<(), ProtocolError> = Err(
                            ProtocolError::DoubleSpendAttempt { new, existing },
                        );
                        assert(old(self).storage.carried_out(cmd, self.storage, CmdResponse::Spend(result)));
                        Outcome::ReportAndReply {
                            report: Request::Event(Event::DoubleSpendAttempted(new, existing)),
                            response: Response::Cmd(CmdResponse::Spend(result)),
                        }
                    },
                    CmdResponse::Spend(result) => {
                        assert(old(self).storage.carried_out(cmd, self.storage, CmdResponse::Spend(result)));
                        Outcome::Reply(Response::Cmd(CmdResponse::Spend(result)))
                    },
                    other => Outcome::Reply(Response::Cmd(other)),
                }
            },
        }
    }

    /// Validates a spend that came with its source transaction, and records
    /// it if it is valid. The parents of the spend are with other close
    /// groups: where one is needed the outcome asks for it, and
    /// `parent_fetched` goes on from there.
    pub fn add_if_valid(&mut self, signed_spend: SignedSpend, source_tx: Transaction) -> (outcome: Outcome)
        ensures
            exists|validation: Validation, verified: bool|
                {
                    &&& #[trigger] old(self).settled(validation, *final(self), outcome)
                    &&& source_tx.spec_inputs().len() == 0 ==> !verified
                    &&& validation.verdict() == #[trigger] validation_verdict(
                        signed_spend,
                        source_tx.spec_hash(),
                        source_tx.spec_inputs().len(),
                        Seq::empty(),
                        verified,
                    )
                    &&& validation matches Validation::Accepted { signed_spend: kept, source_tx: tx } ==> kept
                        == signed_spend && tx == source_tx
                    &&& validation.awaits_first(signed_spend, source_tx)
                },
            source_tx.spec_hash() != signed_spend.src_tx_hash ==> final(self).storage == old(self).storage && outcome
                == Outcome::Reply(
                Response::Cmd(
                    CmdResponse::Spend(
                        Err(
                            ProtocolError::SignedSrcTxHashDoesNotMatchProvidedSrcTxHash {
                                signed_src_tx_hash: signed_spend.src_tx_hash,
                                provided_src_tx_hash: source_tx.spec_hash(),
                            },
                        ),
                    ),
                ),
            ),
    {
        let validation = validate_spend(signed_spend, source_tx);
        self.settle(validation)
    }

    /// Goes on with the validation of a spend, now that the close group of
    /// the awaited parent has answered.
    pub fn parent_fetched(&mut self, pending: PendingValidation, fetched: Fetched) -> (outcome: Outcome)
        ensures
            exists|validation: Validation, verified: bool|
                {
                    &&& #[trigger] old(self).settled(validation, *final(self), outcome)
                    &&& validation.verdict() == #[trigger] validation_verdict(
                        pending.spec_signed_spend(),
                        pending.spec_source_tx().spec_hash(),
                        pending.spec_source_tx().spec_inputs().len(),
                        pending.spec_trail().push(fetched),
                        verified,
                    )
                    &&& validation matches Validation::Accepted { signed_spend: kept, source_tx: tx } ==> kept
                        == pending.spec_signed_spend() && tx == pending.spec_source_tx()
                    &&& validation.awaits_after(pending, fetched)
                },
    {
        let validation = pending.parent_fetched(fetched);
        self.settle(validation)
    }

    /// Whether `outcome` and `after` are what the node makes of a request. A
    /// spend is validated before it is recorded; any other command is carried
    /// out on the storage and answered; a query is answered from the storage,
    /// as anyone may ask; a reported double spend is logged and not answered.
    pub open spec fn handled(&self, request: Request, after: Node, outcome: Outcome) -> bool {
        match request {
            Request::Cmd(Cmd::Dbc { signed_spend, source_tx }) => exists|validation: Validation, verified: bool|
                {
                    &&& #[trigger] self.settled(validation, after, outcome)
                    &&& source_tx.spec_inputs().len() == 0 ==> !verified
                    &&& validation.verdict() == #[trigger] validation_verdict(
                        signed_spend,
                        source_tx.spec_hash(),
                        source_tx.spec_inputs().len(),
                        Seq::empty(),
                        verified,
                    )
                    &&& validation matches Validation::Accepted { signed_spend: kept, source_tx: tx } ==> kept
                        == signed_spend && tx == source_tx
                    &&& validation.awaits_first(signed_spend, source_tx)
                },
            Request::Cmd(cmd) => {
                &&& outcome matches Outcome::Reply(Response::Cmd(response))
                &&& self.storage.carried_out(cmd, after.storage, response)
            },
            Request::Query(query) => {
                &&& outcome matches Outcome::Reply(Response::Query(response))
                &&& self.storage.answers(query, response)
                &&& after.storage == self.storage
            },
            Request::Event(Event::DoubleSpendAttempted(a, b)) => {
                &&& after.storage.chunks == self.storage.chunks
                &&& after.storage.registers == self.storage.registers
                &&& after.storage.spends == self.storage.spends
                &&& if is_double_spend(a, b) {
                    outcome is Nothing && after.storage.double_spends@ == self.storage.double_spends@.insert((a, b))
                } else {
                    outcome matches Outcome::Fail(error) && error == Error::NotADoubleSpend
                        && after.storage.double_spends@ == self.storage.double_spends@
                }
            },
        }
    }

    /// Handles a request.
    pub fn handle_request(&mut self, request: Request) -> (outcome: Outcome)
        ensures
            old(self).handled(request, *final(self), outcome),
    {
        match request {
            Request::Cmd(Cmd::Dbc { signed_spend, source_tx }) => self.add_if_valid(signed_spend, source_tx),
            Request::Cmd(cmd) => {
                let response = self.storage.write(&cmd);
                Outcome::Reply(Response::Cmd(response))
            },
            Request::Query(query) => {
                let response = self.storage.read(&query, User::Anyone);
                Outcome::Reply(Response::Query(response))
            },
            Request::Event(Event::DoubleSpendAttempted(a, b)) => {
                match self.storage.try_add_double(&a, &b) {
                    Ok(()) => Outcome::Nothing,
                    Err(error) => Outcome::Fail(error),
                }
            },
        }
    }

    /// Reacts to an event of the network. A request is handled. When a peer
    /// was added, the node says that it is connected and looks around an
    /// address drawn at random; its storage stays as it is.
    pub fn handle_network_event(&mut self, event: NetworkEvent) -> (reaction: Reaction)
        ensures
            match event {
                NetworkEvent::RequestReceived { req } => reaction matches Reaction::Handle(outcome) && old(self).handled(req, *final(self), outcome),
                NetworkEvent::PeerAdded => {
                    &&& final(self).storage == old(self).storage
                    &&& reaction matches Reaction::Explore { broadcast, .. }
                    &&& broadcast == NodeEvent::ConnectedToNetwork
                },
            },
    {
        match event {
            NetworkEvent::RequestReceived { req } => Reaction::Handle(self.handle_request(req)),
            NetworkEvent::PeerAdded => Reaction::Explore {
                broadcast: NodeEvent::ConnectedToNetwork,
                target: XorName::random(),
            },
        }
    }
}

} // verus!
