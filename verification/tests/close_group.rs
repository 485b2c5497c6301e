use sn_core::address::{RegisterAddress, XorName};
use sn_core::dbc::{BlindedAmount, DbcId, Digest, SignedSpend};
use sn_core::error::{Error, ProtocolError, TransportError};
use sn_core::keys::{PublicKey, Signature};
use sn_core::messages::{CmdResponse, QueryResponse, Response};
use sn_core::quorum::{
    published_to_close_group, register_from_close_group, spend_from_close_group, summarize_failure, Completion,
    Expected, Gathering, Reply, CLOSE_GROUP_SIZE,
};
use sn_core::register::{Permissions, Register, User};

fn spend(id: u8, dst: u8) -> SignedSpend {
    SignedSpend {
        dbc_id: DbcId([id; 48]),
        src_tx_hash: Digest([0; 32]),
        dst_tx_hash: Digest([dst; 32]),
        reason: Digest([0; 32]),
        blinded_amount: BlindedAmount([0; 32]),
        derived_key_sig: Signature([7; 96]),
    }
}

fn holds(s: SignedSpend) -> Reply {
    Ok(Response::Query(QueryResponse::GetDbcSpend(Ok(s))))
}

fn refuses(error: ProtocolError) -> Reply {
    Ok(Response::Query(QueryResponse::GetDbcSpend(Err(error))))
}

fn accepts(expected: Expected) -> Reply {
    match expected {
        Expected::CreateRegister => Ok(Response::Cmd(CmdResponse::CreateRegister(Ok(())))),
        _ => Ok(Response::Cmd(CmdResponse::EditRegister(Ok(())))),
    }
}

fn register(tag: u64) -> Register {
    Register::new(User::Key(PublicKey([1; 48])), XorName([1; 32]), tag, Permissions::anyone_can_write())
}

fn not_found() -> ProtocolError {
    ProtocolError::SpendNotFound(spend(1, 1).address())
}

#[test]
fn the_close_group_has_eight_peers() {
    assert_eq!(CLOSE_GROUP_SIZE, 8);
}

#[test]
fn a_spend_that_the_whole_group_holds_is_returned() {
    let s = spend(1, 1);
    let replies: Vec<Reply> = (0..CLOSE_GROUP_SIZE).map(|_| holds(s)).collect();
    assert_eq!(spend_from_close_group(&replies), Ok(s));
    let more: Vec<Reply> = (0..CLOSE_GROUP_SIZE + 2).map(|_| holds(s)).collect();
    assert_eq!(spend_from_close_group(&more), Ok(s));
}

#[test]
fn one_peer_that_holds_another_spend_invalidates_the_read() {
    let s = spend(1, 1);
    for flipped in 0..CLOSE_GROUP_SIZE {
        let mut replies: Vec<Reply> = (0..CLOSE_GROUP_SIZE).map(|_| holds(s)).collect();
        replies[flipped] = holds(spend(1, 2));
        assert_eq!(
            spend_from_close_group(&replies),
            Err(Error::Protocol(ProtocolError::UnexpectedResponses))
        );
    }
    let mut replies: Vec<Reply> = (0..CLOSE_GROUP_SIZE + 1).map(|_| holds(s)).collect();
    replies[3] = refuses(not_found());
    replies[5] = holds(spend(1, 2));
    assert_eq!(spend_from_close_group(&replies), Err(Error::Protocol(not_found())));
}

#[test]
fn fewer_spends_than_the_group_has_peers_is_a_failure() {
    let s = spend(1, 1);
    let replies: Vec<Reply> = (0..CLOSE_GROUP_SIZE - 1).map(|_| holds(s)).collect();
    assert_eq!(spend_from_close_group(&replies), Err(Error::Protocol(ProtocolError::UnexpectedResponses)));
    assert_eq!(spend_from_close_group(&vec![]), Err(Error::Protocol(ProtocolError::UnexpectedResponses)));

    let mut replies: Vec<Reply> = (0..CLOSE_GROUP_SIZE).map(|_| holds(s)).collect();
    replies[7] = Err(Error::ResponseTimeout);
    assert_eq!(spend_from_close_group(&replies), Err(Error::ResponseTimeout));
    replies[6] = refuses(not_found());
    assert_eq!(spend_from_close_group(&replies), Err(Error::Protocol(not_found())));
    replies[0] = Err(Error::Network(TransportError::ConnectionReset));
    assert_eq!(spend_from_close_group(&replies), Err(Error::Protocol(not_found())));
    replies[6] = holds(s);
    assert_eq!(spend_from_close_group(&replies), Err(Error::Network(TransportError::ConnectionReset)));
}

#[test]
fn a_rejection_comes_before_a_failure_of_the_transport() {
    let denied = ProtocolError::AccessDenied(User::Anyone);
    let replies: Vec<Reply> = vec![
        Err(Error::ResponseTimeout),
        accepts(Expected::EditRegister),
        Ok(Response::Cmd(CmdResponse::EditRegister(Err(ProtocolError::MissingSignature)))),
        Ok(Response::Cmd(CmdResponse::EditRegister(Err(denied)))),
        Ok(Response::Cmd(CmdResponse::CreateRegister(Err(ProtocolError::InvalidSignature)))),
        Err(Error::Network(TransportError::PeerUnreachable)),
    ];
    assert_eq!(
        summarize_failure(Expected::EditRegister, &replies, Error::UnexpectedResponses),
        Error::Protocol(ProtocolError::MissingSignature)
    );
    assert_eq!(
        summarize_failure(Expected::CreateRegister, &replies, Error::UnexpectedResponses),
        Error::Protocol(ProtocolError::InvalidSignature)
    );
    assert_eq!(
        summarize_failure(Expected::DbcSpend, &replies, Error::UnexpectedResponses),
        Error::ResponseTimeout
    );
    assert_eq!(
        summarize_failure(Expected::Register, &replies[1..5].to_vec(), Error::UnexpectedResponses),
        Error::UnexpectedResponses
    );
    assert_eq!(summarize_failure(Expected::Register, &vec![], Error::ResponseTimeout), Error::ResponseTimeout);
}

#[test]
fn the_first_register_wins() {
    let replies: Vec<Reply> = vec![
        Err(Error::ResponseTimeout),
        Ok(Response::Query(QueryResponse::GetRegister(Err(ProtocolError::RegisterNotFound(*register(1).address()))))),
        Ok(Response::Query(QueryResponse::GetRegister(Ok(register(2))))),
        Ok(Response::Query(QueryResponse::GetRegister(Ok(register(3))))),
    ];
    assert_eq!(register_from_close_group(&replies).unwrap().tag(), 2);
    assert_eq!(
        register_from_close_group(&replies[..2].to_vec()),
        Err(Error::Protocol(ProtocolError::RegisterNotFound(RegisterAddress { name: XorName([1; 32]), tag: 1 })))
    );
    assert_eq!(register_from_close_group(&replies[..1].to_vec()), Err(Error::ResponseTimeout));
    assert_eq!(register_from_close_group(&vec![]), Err(Error::UnexpectedResponses));
    assert_eq!(
        register_from_close_group(&vec![holds(spend(1, 1))]),
        Err(Error::UnexpectedResponses)
    );
}

#[test]
fn a_command_on_a_register_needs_every_peer_of_the_group() {
    for expected in [Expected::CreateRegister, Expected::EditRegister] {
        let replies: Vec<Reply> = (0..CLOSE_GROUP_SIZE).map(|_| accepts(expected)).collect();
        assert_eq!(published_to_close_group(expected, &replies), Ok(()));
        let short: Vec<Reply> = (0..CLOSE_GROUP_SIZE - 1).map(|_| accepts(expected)).collect();
        assert_eq!(published_to_close_group(expected, &short), Err(Error::UnexpectedResponses));
        assert_eq!(published_to_close_group(expected, &vec![]), Err(Error::UnexpectedResponses));
        let mut failed = replies.clone();
        failed[4] = Err(Error::ResponseTimeout);
        assert_eq!(published_to_close_group(expected, &failed), Err(Error::ResponseTimeout));
        failed[6] = Ok(Response::Cmd(CmdResponse::ChunkStored(Ok(()))));
        assert_eq!(published_to_close_group(expected, &failed), Err(Error::ResponseTimeout));
        failed[4] = accepts(expected);
        assert_eq!(published_to_close_group(expected, &failed), Err(Error::UnexpectedResponses));
    }
    let created: Vec<Reply> = (0..CLOSE_GROUP_SIZE).map(|_| accepts(Expected::CreateRegister)).collect();
    assert_eq!(published_to_close_group(Expected::EditRegister, &created), Err(Error::UnexpectedResponses));
    let mut denied = created.clone();
    denied[2] = Ok(Response::Cmd(CmdResponse::CreateRegister(Err(ProtocolError::AccessDenied(User::Anyone)))));
    denied[1] = Err(Error::ResponseTimeout);
    assert_eq!(
        published_to_close_group(Expected::CreateRegister, &denied),
        Err(Error::Protocol(ProtocolError::AccessDenied(User::Anyone)))
    );
}

#[test]
fn a_fan_out_that_gathers_all_keeps_every_reply() {
    let mut gathering = Gathering::new(3, true);
    assert!(!gathering.is_finished());
    assert!(!gathering.record(Completion::TimedOut));
    assert!(!gathering.record(Completion::Answered(Ok(Response::Cmd(CmdResponse::ChunkStored(Ok(())))))));
    assert!(gathering.record(Completion::Answered(Err(TransportError::PeerUnreachable))));
    assert!(gathering.is_finished());
    assert!(gathering.record(Completion::TimedOut));
    assert_eq!(
        gathering.into_replies(),
        vec![
            Err(Error::ResponseTimeout),
            Ok(Response::Cmd(CmdResponse::ChunkStored(Ok(())))),
            Err(Error::Network(TransportError::PeerUnreachable)),
        ]
    );
    let nobody = Gathering::new(0, true);
    assert!(nobody.is_finished());
    assert_eq!(nobody.into_replies(), vec![]);
}

#[test]
fn a_fan_out_for_the_first_success_ends_with_it() {
    let mut gathering = Gathering::new(5, false);
    assert!(!gathering.record(Completion::TimedOut));
    assert!(!gathering.record(Completion::Answered(Err(TransportError::DeserializationFailed))));
    assert!(gathering.record(Completion::Answered(Ok(Response::Cmd(CmdResponse::Spend(Ok(())))))));
    assert!(gathering.is_finished());
    assert!(gathering.record(Completion::Answered(Ok(Response::Cmd(CmdResponse::ChunkStored(Ok(())))))));
    assert_eq!(gathering.into_replies(), vec![Ok(Response::Cmd(CmdResponse::Spend(Ok(()))))]);

    let mut failing = Gathering::new(2, false);
    assert!(!failing.record(Completion::TimedOut));
    assert!(failing.record(Completion::TimedOut));
    assert_eq!(failing.into_replies(), vec![Err(Error::ResponseTimeout), Err(Error::ResponseTimeout)]);

    let mut rejected = Gathering::new(1, false);
    let refusal = Response::Cmd(CmdResponse::Spend(Err(ProtocolError::InvalidSignature)));
    assert!(rejected.record(Completion::Answered(Ok(refusal.clone()))));
    assert_eq!(rejected.into_replies(), vec![Ok(refusal)]);
}
