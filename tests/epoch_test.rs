use dumbo_bft::aba_messages::{AsyncBinaryAgreementMessage, AsyncBinaryAgreementMessageType, BoolSet};
use dumbo_bft::coin::coin_message;
use dumbo_bft::committee_election::{CommitteeElectionProtocol, CommitteeElectionResult};
use dumbo_bft::epoch::{DumboRound, EpochError, EpochResult};
use dumbo_bft::message::{DumboMessage, DumboMessageType, EpochMessageType};
use dumbo_bft::node::{Header, NodeId, StoredMessage};
use dumbo_bft::node_states::LocalDumboState;
use dumbo_bft::protocol::Dumbo;
use dumbo_bft::quorum_info::QuorumInfo;
use dumbo_bft::reliable_broadcast::{Digest, ReliableBroadcastMessage};
use threshold_crypto::poly::Poly;
use threshold_crypto::SecretKeySet;

/// An election that decides on its first message: the first members.
struct FirstMembers {
    committee: Vec<NodeId>,
}

impl CommitteeElectionProtocol for FirstMembers {
    type Message = u8;

    fn new(quorum_info: &QuorumInfo, committee_size: usize) -> Self {
        FirstMembers { committee: quorum_info.quorum_members().iter().take(committee_size).cloned().collect() }
    }

    fn poll(&mut self) -> Option<StoredMessage<u8>> {
        None
    }

    fn process_message(&mut self, _message: StoredMessage<u8>) -> (CommitteeElectionResult, Vec<u8>) {
        (CommitteeElectionResult::Decided, vec![1])
    }

    fn finalize(self) -> Option<Vec<NodeId>> {
        Some(self.committee)
    }
}

type Round = DumboRound<FirstMembers, u8>;
type Msg = EpochMessageType<u8, u8>;

fn quorum() -> QuorumInfo {
    QuorumInfo::new(4, 1, (0..4).map(NodeId).collect())
}

fn deliver(round: &mut Round, from: u32, message: Msg) -> Result<(EpochResult, Vec<Msg>), EpochError> {
    round.process_message(StoredMessage::new(Header { from: NodeId(from), to: NodeId(0) }, message))
}

fn run_value_broadcast(round: &mut Round, owner: u32, payload: Vec<u8>) {
    let digest = Digest(*blake3::hash(&payload).as_bytes());
    let send = DumboMessageType::ReliableBroadcast(NodeId(owner), ReliableBroadcastMessage::Send(payload, digest));
    assert_eq!(deliver(round, owner, send).unwrap().0, EpochResult::MessageProcessed);
    for i in 0..3 {
        deliver(round, i, DumboMessageType::ReliableBroadcast(NodeId(owner), ReliableBroadcastMessage::Echo(digest))).unwrap();
    }
    for i in 0..3 {
        deliver(round, i, DumboMessageType::ReliableBroadcast(NodeId(owner), ReliableBroadcastMessage::Ready(digest))).unwrap();
    }
}

fn aba(owner: u32, round: usize, t: AsyncBinaryAgreementMessageType) -> Msg {
    DumboMessageType::AsyncBinaryAgreement(NodeId(owner), AsyncBinaryAgreementMessage::new(t, round))
}

/// Drives `owner`'s agreement with every vote for `value` until it decides.
fn run_agreement(round: &mut Round, keys: &SecretKeySet, owner: u32, value: bool) -> EpochResult {
    for r in 0..64usize {
        for i in 0..3 {
            deliver(round, i, aba(owner, r, AsyncBinaryAgreementMessageType::Val { estimate: value })).unwrap();
        }
        for i in 0..3 {
            let s = BoolSet::single(value);
            deliver(round, i, aba(owner, r, AsyncBinaryAgreementMessageType::Aux { accepted_estimates: s })).unwrap();
        }
        let mut advanced = false;
        for i in 0..3u32 {
            let share = keys.secret_key_share(i as usize).sign(coin_message(r as u64));
            let conf = AsyncBinaryAgreementMessageType::Conf { feasible_values: BoolSet::single(value), partial_signature: share };
            let (_, out) = deliver(round, i, aba(owner, r, conf)).unwrap();
            if i == 2 {
                advanced = !out.iter().any(|m| matches!(m, DumboMessageType::AsyncBinaryAgreement(_, a)
                    if matches!(a.message_type(), AsyncBinaryAgreementMessageType::Finish { .. })));
            }
        }
        if !advanced {
            let mut last = EpochResult::MessageIgnored;
            for i in 0..3 {
                last = deliver(round, i, aba(owner, r, AsyncBinaryAgreementMessageType::Finish { value })).unwrap().0;
            }
            return last;
        }
    }
    panic!("the agreement did not decide");
}

#[test]
fn epoch_outputs_values_decided_true_in_member_order() {
    let keys = SecretKeySet::from(Poly::monomial(1) + 11u64);
    let mut round = Round::new(1, NodeId(0), quorum());
    assert_eq!(round.is_part_of_committee(), Err(EpochError::CommitteeNotCompleted));
    assert_eq!(round.check_nodes_ready(), Err(EpochError::CommitteeNotCompleted));
    assert_eq!(round.local_state(), LocalDumboState::WaitingForCommittee);

    // an agreement message before the committee is known has no slot
    let early = aba(0, 0, AsyncBinaryAgreementMessageType::Val { estimate: true });
    assert_eq!(deliver(&mut round, 1, early).unwrap().0, EpochResult::MessageIgnored);

    let (res, out) = deliver(&mut round, 2, DumboMessageType::CommitteeElectionMessage(0)).unwrap();
    assert_eq!(res, EpochResult::MessageProcessed);
    assert_eq!(out.len(), 1);
    assert_eq!(round.is_part_of_committee(), Ok(true));
    assert_eq!(round.local_state(), LocalDumboState::CommitteeMember);
    // the election has finished: further election messages are ignored
    let (res, out) = deliver(&mut round, 2, DumboMessageType::CommitteeElectionMessage(0)).unwrap();
    assert_eq!(res, EpochResult::MessageIgnored);
    assert!(out.is_empty());

    for owner in 0..4u32 {
        assert_eq!(round.completed_rbc_count(), owner as usize);
        run_value_broadcast(&mut round, owner, vec![owner as u8, 100]);
    }
    assert_eq!(round.completed_rbc_count(), 4);
    assert_eq!(round.check_nodes_ready(), Ok(true));

    // node 2 is not in the committee {0, 1}: no agreement for it
    assert!(!round.start_aba(NodeId(2), true, keys.public_keys(), keys.secret_key_share(0usize)));
    let msg = aba(2, 0, AsyncBinaryAgreementMessageType::Val { estimate: true });
    assert_eq!(deliver(&mut round, 1, msg).unwrap().0, EpochResult::MessageIgnored);

    assert!(round.start_aba(NodeId(0), true, keys.public_keys(), keys.secret_key_share(0usize)));
    assert!(round.start_aba(NodeId(1), false, keys.public_keys(), keys.secret_key_share(0usize)));
    assert!(!round.start_aba(NodeId(1), false, keys.public_keys(), keys.secret_key_share(0usize)));

    assert_eq!(run_agreement(&mut round, &keys, 0, true), EpochResult::MessageProcessed);
    assert!(!round.is_finalized());
    assert_eq!(run_agreement(&mut round, &keys, 1, false), EpochResult::Finalized);
    assert!(round.is_finalized());

    assert_eq!(round.into_output(), Some(vec![0u8, 100]));
}

#[test]
fn epoch_output_waits_for_every_agreement() {
    let mut round = Round::new(3, NodeId(3), quorum());
    deliver(&mut round, 0, DumboMessageType::CommitteeElectionMessage(0)).unwrap();
    assert_eq!(round.is_part_of_committee(), Ok(false));
    assert_eq!(round.local_state(), LocalDumboState::NonCommitteeMember);
    assert_eq!(round.check_nodes_ready(), Ok(false));
    assert!(!round.is_finalized());
    assert_eq!(round.into_output(), None);
}

#[test]
fn engine_ignores_epochs_outside_the_window() {
    let mut engine: Dumbo<FirstMembers, u8> = Dumbo::new(NodeId(0), quorum());
    assert_eq!(engine.sequence_number(), 1);
    let old = DumboMessage::new(0, DumboMessageType::CommitteeElectionMessage(0));
    let r = engine.process_message(StoredMessage::new(Header { from: NodeId(1), to: NodeId(0) }, old)).unwrap();
    assert_eq!(r.0, EpochResult::MessageIgnored);
    let far = DumboMessage::new(1 + dumbo_bft::protocol::EPOCH_WINDOW, DumboMessageType::CommitteeElectionMessage(0));
    let r = engine.process_message(StoredMessage::new(Header { from: NodeId(1), to: NodeId(0) }, far)).unwrap();
    assert_eq!(r.0, EpochResult::MessageIgnored);

    let current = DumboMessage::new(2, DumboMessageType::CommitteeElectionMessage(0));
    let (res, out) = engine.process_message(StoredMessage::new(Header { from: NodeId(1), to: NodeId(0) }, current)).unwrap();
    assert_eq!(res, EpochResult::MessageProcessed);
    assert_eq!(out.len(), 1);
    assert_eq!(out[0].sequence_number(), 2);
    assert!(engine.poll().is_none());

    engine.install_seq_no(3);
    assert_eq!(engine.sequence_number(), 3);
    engine.install_seq_no(2);
    assert_eq!(engine.sequence_number(), 3);
}

#[test]
fn epoch_index_broadcast_runs_once_the_value_is_in() {
    let mut round = Round::new(1, NodeId(0), quorum());
    let index_msg = |owner: u32, m: ReliableBroadcastMessage<usize>| -> Msg { DumboMessageType::IndexReliableBroadcast(NodeId(owner), m) };
    let d = Digest(*blake3::hash(&[5u8]).as_bytes());
    // no slot before the committee is known
    assert_eq!(deliver(&mut round, 0, index_msg(0, ReliableBroadcastMessage::Send(5, d))).unwrap().0, EpochResult::MessageIgnored);
    deliver(&mut round, 1, DumboMessageType::CommitteeElectionMessage(0)).unwrap();
    // the value broadcast is still running: no index phase yet
    assert!(!round.begin_index_phase(NodeId(0)));
    assert_eq!(deliver(&mut round, 0, index_msg(0, ReliableBroadcastMessage::Send(5, d))).unwrap().0, EpochResult::MessageIgnored);
    run_value_broadcast(&mut round, 0, vec![7]);
    // non-committee members never run an index broadcast
    run_value_broadcast(&mut round, 3, vec![8]);
    assert!(!round.begin_index_phase(NodeId(3)));
    assert!(round.begin_index_phase(NodeId(0)));
    let (res, out) = deliver(&mut round, 0, index_msg(0, ReliableBroadcastMessage::Send(5, d))).unwrap();
    assert_eq!(res, EpochResult::MessageProcessed);
    assert!(matches!(&out[..], [DumboMessageType::IndexReliableBroadcast(NodeId(0), ReliableBroadcastMessage::Echo(e))] if *e == d));
    for i in 0..3 {
        deliver(&mut round, i, index_msg(0, ReliableBroadcastMessage::Echo(d))).unwrap();
    }
    for i in 0..3 {
        deliver(&mut round, i, index_msg(0, ReliableBroadcastMessage::Ready(d))).unwrap();
    }
    // the index broadcast has completed: its messages are no longer taken
    assert_eq!(deliver(&mut round, 3, index_msg(0, ReliableBroadcastMessage::Ready(d))).unwrap().0, EpochResult::MessageIgnored);
    assert_eq!(round.completed_rbc_count(), 2);
}

#[test]
fn epoch_poll_returns_messages_held_by_a_slot() {
    let mut round = Round::new(1, NodeId(0), quorum());
    deliver(&mut round, 1, DumboMessageType::CommitteeElectionMessage(0)).unwrap();
    let d = Digest(*blake3::hash(&[1u8]).as_bytes());
    let echo = DumboMessageType::ReliableBroadcast(NodeId(2), ReliableBroadcastMessage::Echo(d));
    assert_eq!(deliver(&mut round, 3, echo).unwrap().0, EpochResult::MessageQueued);
    assert!(round.poll().is_none());
    let send = DumboMessageType::ReliableBroadcast(NodeId(2), ReliableBroadcastMessage::Send(vec![1u8], d));
    deliver(&mut round, 2, send).unwrap();
    let polled = round.poll().expect("the early echo is processable now");
    assert_eq!(polled.from(), NodeId(3));
    assert!(matches!(polled.message, DumboMessageType::ReliableBroadcast(NodeId(2), ReliableBroadcastMessage::Echo(e)) if e == d));
}
