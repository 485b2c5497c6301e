//! The close group: the peers closest to an address, what they answer to a
//! request, and the rule by which their answers become one result.
//!
//! A read of a spend needs the whole group to agree, since one replica that
//! differs means a double spend or a stale peer. A read of a register takes
//! the first success, since replicas are merged. A write to a register needs
//! every peer of the group to accept it.

use crate::dbc::SignedSpend;
use crate::error::{Error, ProtocolError, TransportError};
use crate::messages::{CmdResponse, QueryResponse, Response};
use crate::register::Register;
use crate::scan::{first_index, lemma_first_index};
use vstd::prelude::*;

verus! {

/// The number of peers in a close group.
pub const CLOSE_GROUP_SIZE: usize = 8;

/// The number of seconds that a peer has to answer a request.
pub const RESPONSE_TIMEOUT_SECS: u64 = 10;

/// What one peer of the group gave: its response, or the failure to get one.
pub type Reply = Result<Response, Error>;

/// The kind of response that a request expects.
#[derive(Clone, Copy, Debug, PartialEq, Eq)]
pub enum Expected {
    /// The answer to a read of a spend.
    DbcSpend,
    /// The answer to a read of a register.
    Register,
    /// The answer to the creation of a register.
    CreateRegister,
    /// The answer to an edit of a register.
    EditRegister,
}

/// The error with which a peer rejected the request, where the reply is a
/// rejection of the expected kind.
pub open spec fn rejection(expected: Expected, reply: Reply) -> Option<ProtocolError> {
    match (expected, reply) {
        (Expected::DbcSpend, Ok(Response::Query(QueryResponse::GetDbcSpend(Err(error))))) => Some(error),
        (Expected::Register, Ok(Response::Query(QueryResponse::GetRegister(Err(error))))) => Some(error),
        (Expected::CreateRegister, Ok(Response::Cmd(CmdResponse::CreateRegister(Err(error))))) => Some(error),
        (Expected::EditRegister, Ok(Response::Cmd(CmdResponse::EditRegister(Err(error))))) => Some(error),
        _ => None,
    }
}

/// Whether the reply is the acceptance of a command of the expected kind.
pub open spec fn accepted(expected: Expected, reply: Reply) -> bool {
    match (expected, reply) {
        (Expected::CreateRegister, Ok(Response::Cmd(CmdResponse::CreateRegister(Ok(()))))) => true,
        (Expected::EditRegister, Ok(Response::Cmd(CmdResponse::EditRegister(Ok(()))))) => true,
        _ => false,
    }
}

/// The spend that a reply holds, where it is a successful read of a spend.
pub open spec fn spend_in(reply: Reply) -> Option<SignedSpend> {
    match reply {
        Ok(Response::Query(QueryResponse::GetDbcSpend(Ok(spend)))) => Some(spend),
        _ => None,
    }
}

/// Whether a reply holds a register.
pub open spec fn holds_register(reply: Reply) -> bool {
    reply matches Ok(Response::Query(QueryResponse::GetRegister(Ok(_))))
}

/// The number of replies that hold a spend.
pub open spec fn count_spends(replies: Seq<Reply>) -> nat
    decreases replies.len(),
{
    if replies.len() == 0 {
        0
    } else {
        count_spends(replies.drop_last()) + if spend_in(replies.last()) is Some {
            1nat
        } else {
            0nat
        }
    }
}

/// Whether every reply that holds a spend holds `spend`.
pub open spec fn all_spends_are(replies: Seq<Reply>, spend: SignedSpend) -> bool {
    forall|i: int| 0 <= i < replies.len() && spend_in(#[trigger] replies[i]) is Some ==> spend_in(replies[i]) == Some(spend)
}

/// The spend on which a close group agrees: at least `CLOSE_GROUP_SIZE`
/// replies hold a spend, and all of them hold this one.
pub open spec fn agreed_spend(replies: Seq<Reply>) -> Option<SignedSpend> {
    match first_index(replies, |reply: Reply| spend_in(reply) is Some) {
        Some(i) => {
            let spend = spend_in(replies[i])->Some_0;
            if count_spends(replies) >= CLOSE_GROUP_SIZE && all_spends_are(replies, spend) {
                Some(spend)
            } else {
                None
            }
        },
        None => None,
    }
}

/// The error that sums up a fan-out that did not succeed: the first
/// rejection by a peer; where no peer rejected, the first failure to get a
/// response; where there was none either, `unexpected`.
pub open spec fn summary_error(expected: Expected, replies: Seq<Reply>, unexpected: Error) -> Error {
    match first_index(replies, |reply: Reply| rejection(expected, reply) is Some) {
        Some(i) => Error::Protocol(rejection(expected, replies[i])->Some_0),
        None => match first_index(replies, |reply: Reply| reply is Err) {
            Some(i) => replies[i]->Err_0,
            None => unexpected,
        },
    }
}

/// What a read of a spend gives, from the replies of the close group.
pub open spec fn spend_verdict(replies: Seq<Reply>) -> Result<SignedSpend, Error> {
    match agreed_spend(replies) {
        Some(spend) => Ok(spend),
        None => Err(
            summary_error(Expected::DbcSpend, replies, Error::Protocol(ProtocolError::UnexpectedResponses)),
        ),
    }
}

/// Whether the whole close group accepted a command: at least
/// `CLOSE_GROUP_SIZE` replies came, and each is an acceptance.
pub open spec fn all_accepted(expected: Expected, replies: Seq<Reply>) -> bool {
    replies.len() >= CLOSE_GROUP_SIZE && forall|i: int|
        0 <= i < replies.len() ==> accepted(expected, #[trigger] replies[i])
}

/// What a command on a register gives, from the replies of the close group.
pub open spec fn publish_verdict(expected: Expected, replies: Seq<Reply>) -> Result<(), Error> {
    if all_accepted(expected, replies) {
        Ok(())
    } else {
        Err(summary_error(expected, replies, Error::UnexpectedResponses))
    }
}

/// A read of a spend fails as soon as two peers hold different spends.
pub proof fn lemma_disagreement_fails(replies: Seq<Reply>, i: int, j: int)
    requires
        0 <= i < replies.len(),
        0 <= j < replies.len(),
        spend_in(replies[i]) is Some,
        spend_in(replies[j]) is Some,
        spend_in(replies[i]) != spend_in(replies[j]),
    ensures
        spend_verdict(replies) is Err,
{
    lemma_first_index(replies, |reply: Reply| spend_in(reply) is Some);
}

/// A read of a spend succeeds where every peer of a whole close group holds
/// the same spend, and it gives that spend.
pub proof fn lemma_unanimity_succeeds(replies: Seq<Reply>, spend: SignedSpend)
    requires
        replies.len() >= CLOSE_GROUP_SIZE,
        forall|i: int| 0 <= i < replies.len() ==> spend_in(#[trigger] replies[i]) == Some(spend),
    ensures
        spend_verdict(replies) == Ok::<SignedSpend, Error>(spend),
{
    lemma_first_index(replies, |reply: Reply| spend_in(reply) is Some);
    lemma_all_counted(replies);
}

/// Where every reply holds a spend, the spends are as many as the replies.
proof fn lemma_all_counted(replies: Seq<Reply>)
    requires
        forall|i: int| 0 <= i < replies.len() ==> spend_in(#[trigger] replies[i]) is Some,
    ensures
        count_spends(replies) == replies.len(),
    decreases replies.len(),
{
    if replies.len() > 0 {
        assert forall|i: int| 0 <= i < replies.drop_last().len() implies spend_in(
            #[trigger] replies.drop_last()[i],
        ) is Some by {
            assert(replies.drop_last()[i] == replies[i]);
        }
        lemma_all_counted(replies.drop_last());
    }
}

/// The rejection that a reply carries, if it is one of the expected kind.
fn rejection_in(expected: Expected, reply: &Reply) -> (found: Option<ProtocolError>)
    ensures
        found == rejection(expected, *reply),
{
    match (expected, reply) {
        (Expected::DbcSpend, Ok(Response::Query(QueryResponse::GetDbcSpend(Err(error))))) => Some(*error),
        (Expected::Register, Ok(Response::Query(QueryResponse::GetRegister(Err(error))))) => Some(*error),
        (Expected::CreateRegister, Ok(Response::Cmd(CmdResponse::CreateRegister(Err(error))))) => Some(*error),
        (Expected::EditRegister, Ok(Response::Cmd(CmdResponse::EditRegister(Err(error))))) => Some(*error),
        _ => None,
    }
}

/// Whether a reply is the acceptance of a command of the expected kind.
fn is_accepted(expected: Expected, reply: &Reply) -> (yes: bool)
    ensures
        yes == accepted(expected, *reply),
{
    match (expected, reply) {
        (Expected::CreateRegister, Ok(Response::Cmd(CmdResponse::CreateRegister(Ok(()))))) => true,
        (Expected::EditRegister, Ok(Response::Cmd(CmdResponse::EditRegister(Ok(()))))) => true,
        _ => false,
    }
}

/// Sums up a fan-out that did not succeed in one error. A rejection by a
/// peer comes before a failure of the transport, so that a timeout of one
/// peer does not hide what another peer said.
pub fn summarize_failure(expected: Expected, replies: &Vec<Reply>, unexpected: Error) -> (error: Error)
    ensures
        error == summary_error(expected, replies@, unexpected),
{
    let mut i: usize = 0;
    while i < replies.len()
        invariant
            i <= replies.len(),
            forall|j: int| 0 <= j < i ==> rejection(expected, #[trigger] replies@[j]) is None,
        decreases replies.len() - i,
    {
        match rejection_in(expected, &replies[i]) {
            Some(error) => {
                proof {
                    lemma_first_index(replies@, |reply: Reply| rejection(expected, reply) is Some);
                }
                return Error::Protocol(error);
            },
            None => {},
        }
        i += 1;
    }
    proof {
        lemma_first_index(replies@, |reply: Reply| rejection(expected, reply) is Some);
    }
    let mut k: usize = 0;
    while k < replies.len()
        invariant
            k <= replies.len(),
            first_index(replies@, |reply: Reply| rejection(expected, reply) is Some) is None,
            forall|j: int| 0 <= j < k ==> !((#[trigger] replies@[j]) is Err),
        decreases replies.len() - k,
    {
        match &replies[k] {
            Err(error) => {
                proof {
                    lemma_first_index(replies@, |reply: Reply| reply is Err);
                }
                return *error;
            },
            Ok(_) => {},
        }
        k += 1;
    }
    proof {
        lemma_first_index(replies@, |reply: Reply| reply is Err);
    }
    unexpected
}

/// The spend that the close group holds at an address, from the group's
/// replies to the read. It is a success only if at least `CLOSE_GROUP_SIZE`
/// peers gave a spend and all gave the same one.
pub fn spend_from_close_group(replies: &Vec<Reply>) -> (result: Result<SignedSpend, Error>)
    ensures
        result == spend_verdict(replies@),
{
    let mut first: Option<SignedSpend> = None;
    let mut count: usize = 0;
    let mut agree: bool = true;
    let mut i: usize = 0;
    while i < replies.len()
        invariant
            i <= replies.len(),
            count == count_spends(replies@.take(i as int)),
            count <= i,
            first is None ==> forall|j: int| 0 <= j < i ==> spend_in(#[trigger] replies@[j]) is None,
            first matches Some(spend) ==> exists|f: int|
                0 <= f < i && spend_in(#[trigger] replies@[f]) == Some(spend) && forall|j: int|
                    0 <= j < f ==> spend_in(#[trigger] replies@[j]) is None,
            first matches Some(spend) ==> (agree <==> forall|j: int|
                0 <= j < i && spend_in(#[trigger] replies@[j]) is Some ==> spend_in(replies@[j]) == Some(spend)),
        decreases replies.len() - i,
    {
        proof {
            assert(replies@.take(i + 1).drop_last() =~= replies@.take(i as int));
        }
        match &replies[i] {
            Ok(Response::Query(QueryResponse::GetDbcSpend(Ok(spend)))) => {
                count += 1;
                match first {
                    None => {
                        first = Some(*spend);
                        agree = true;
                    },
                    Some(seen) => {
                        if !seen.equals(spend) {
                            agree = false;
                        }
                    },
                }
            },
            _ => {},
        }
        i += 1;
    }
    proof {
        assert(replies@.take(replies.len() as int) =~= replies@);
        lemma_first_index(replies@, |reply: Reply| spend_in(reply) is Some);
    }
    match first {
        Some(spend) => {
            if count >= CLOSE_GROUP_SIZE && agree {
                return Ok(spend);
            }
        },
        None => {},
    }
    Err(summarize_failure(Expected::DbcSpend, replies, Error::Protocol(ProtocolError::UnexpectedResponses)))
}

/// The register that the close group holds at an address, from the group's
/// replies to the read: the first that a peer gave.
pub fn register_from_close_group(replies: &Vec<Reply>) -> (result: Result<Register, Error>)
    ensures
        match first_index(replies@, |reply: Reply| holds_register(reply)) {
            Some(i) => result matches Ok(register) && (replies@[i] matches Ok(
                Response::Query(QueryResponse::GetRegister(Ok(given))),
            ) && register.alike(&given)),
            None => result matches Err(error) && error == summary_error(
                Expected::Register,
                replies@,
                Error::UnexpectedResponses,
            ),
        },
{
    let mut i: usize = 0;
    while i < replies.len()
        invariant
            i <= replies.len(),
            forall|j: int| 0 <= j < i ==> !holds_register(#[trigger] replies@[j]),
        decreases replies.len() - i,
    {
        match &replies[i] {
            Ok(Response::Query(QueryResponse::GetRegister(Ok(register)))) => {
                proof {
                    lemma_first_index(replies@, |reply: Reply| holds_register(reply));
                }
                return Ok(register.duplicate());
            },
            _ => {},
        }
        i += 1;
    }
    proof {
        lemma_first_index(replies@, |reply: Reply| holds_register(reply));
    }
    Err(summarize_failure(Expected::Register, replies, Error::UnexpectedResponses))
}

/// Whether the close group accepted a command on a register, from the
/// group's replies: every peer of the group has to accept.
pub fn published_to_close_group(expected: Expected, replies: &Vec<Reply>) -> (result: Result<(), Error>)
    ensures
        result == publish_verdict(expected, replies@),
{
    let mut all: bool = replies.len() >= CLOSE_GROUP_SIZE;
    let mut i: usize = 0;
    while i < replies.len()
        invariant
            i <= replies.len(),
            all <==> (replies.len() >= CLOSE_GROUP_SIZE && forall|j: int|
                0 <= j < i ==> accepted(expected, #[trigger] replies@[j])),
        decreases replies.len() - i,
    {
        if !is_accepted(expected, &replies[i]) {
            all = false;
        }
        i += 1;
    }
    if all {
        Ok(())
    } else {
        Err(summarize_failure(expected, replies, Error::UnexpectedResponses))
    }
}

/// How the wait for one peer ended.
#[derive(Debug, PartialEq, Eq)]
pub enum Completion {
    /// The exchange with the peer ended within the deadline: with a
    /// response, or with a failure of the transport.
    Answered(Result<Response, TransportError>),
    /// The deadline passed.
    TimedOut,
}

/// The reply that the end of a wait stands for.
pub open spec fn reply_of(completion: Completion) -> Reply {
    match completion {
        Completion::Answered(Ok(response)) => Ok(response),
        Completion::Answered(Err(error)) => Err(Error::Network(error)),
        Completion::TimedOut => Err(Error::ResponseTimeout),
    }
}

/// The replies of a fan-out, gathered as the waits for the peers end.
///
/// Either every reply is kept, or the first response ends the fan-out and is
/// its only result.
#[derive(Debug)]
pub struct Gathering {
    get_all_responses: bool,
    outstanding: usize,
    replies: Vec<Reply>,
}

impl Gathering {
    /// Whether every reply is kept.
    pub closed spec fn keeps_all(&self) -> bool {
        self.get_all_responses
    }

    /// The number of peers that are still waited for.
    pub closed spec fn spec_outstanding(&self) -> nat {
        self.outstanding as nat
    }

    /// The replies gathered so far.
    pub closed spec fn spec_replies(&self) -> Seq<Reply> {
        self.replies@
    }

    /// Whether the fan-out is over: no peer is waited for any more.
    pub open spec fn finished(&self) -> bool {
        self.spec_outstanding() == 0
    }

    /// The start of a fan-out to `peers` peers.
    pub fn new(peers: usize, get_all_responses: bool) -> (gathering: Gathering)
        ensures
            gathering.keeps_all() == get_all_responses,
            gathering.spec_outstanding() == peers,
            gathering.spec_replies() == Seq::<Reply>::empty(),
    {
        Gathering { get_all_responses, outstanding: peers, replies: Vec::new() }
    }

    /// Whether the fan-out is over: no peer is waited for any more.
    pub fn is_finished(&self) -> (done: bool)
        ensures
            done == self.finished(),
    {
        self.outstanding == 0
    }

    /// Takes in the end of the wait for one peer, and says whether the
    /// fan-out is over. Where only the first success is wanted and this is a
    /// response, it becomes the only result and the other peers are waited
    /// for no more. Else the reply joins the others. Once the fan-out is over
    /// nothing changes any more.
    pub fn record(&mut self, completion: Completion) -> (done: bool)
        ensures
            done == final(self).finished(),
            final(self).keeps_all() == old(self).keeps_all(),
            old(self).finished() ==> final(self).spec_replies() == old(self).spec_replies(),
            old(self).finished() ==> final(self).finished(),
            !old(self).finished() && !old(self).keeps_all() && reply_of(completion) is Ok ==> final(self).finished()
                && final(self).spec_replies() == seq![reply_of(completion)],
            !old(self).finished() && (old(self).keeps_all() || reply_of(completion) is Err) ==> {
                &&& final(self).spec_replies() == old(self).spec_replies().push(reply_of(completion))
                &&& final(self).spec_outstanding() == old(self).spec_outstanding() - 1
            },
    {
        if self.outstanding == 0 {
            return true;
        }
        let reply: Reply = match completion {
            Completion::Answered(Ok(response)) => Ok(response),
            Completion::Answered(Err(error)) => Err(Error::Network(error)),
            Completion::TimedOut => Err(Error::ResponseTimeout),
        };
        if !self.get_all_responses && reply.is_ok() {
            let mut only: Vec<Reply> = Vec::new();
            only.push(reply);
            self.replies = only;
            self.outstanding = 0;
            return true;
        }
        self.replies.push(reply);
        self.outstanding = self.outstanding - 1;
        self.outstanding == 0
    }

    /// The replies gathered.
    pub fn into_replies(self) -> (replies: Vec<Reply>)
        ensures
            replies@ == self.spec_replies(),
    {
        self.replies
    }
}

} // verus!
