use dumbo_bft::node::{Header, NodeId, StoredMessage};
use dumbo_bft::quorum_info::QuorumInfo;
use dumbo_bft::reliable_broadcast::{
    Digest, ReliableBroadcastError, ReliableBroadcastInstance, ReliableBroadcastMessage,
    ReliableBroadcastResult, ReliableBroadcastState,
};

type MsgType = Vec<u8>;

/// Records what an instance asks to broadcast.
struct MockNetwork {
    sent: Vec<ReliableBroadcastMessage<MsgType>>,
}

impl MockNetwork {
    fn new() -> Self {
        MockNetwork { sent: vec![] }
    }

    fn process(
        &mut self,
        rbc: &mut ReliableBroadcastInstance<MsgType>,
        msg: StoredMessage<ReliableBroadcastMessage<MsgType>>,
    ) -> ReliableBroadcastResult {
        let (result, out) = rbc.process_message(msg);
        if let Some(m) = out {
            self.sent.push(m);
        }
        result
    }

    fn sent_ready(&self) -> bool {
        self.sent.iter().any(|m| matches!(m, ReliableBroadcastMessage::Ready(_)))
    }
}

fn quorum_info(n: usize, f: usize) -> QuorumInfo {
    QuorumInfo::new(n, f, (0..n).map(|i| NodeId(i as u32)).collect())
}

fn sender_from_quorum(quorum: &QuorumInfo) -> NodeId {
    quorum.quorum_members().first().cloned().unwrap_or(NodeId(0))
}

fn make_digest(val: u8) -> Digest {
    Digest(*blake3::hash(&[val]).as_bytes())
}

fn stored_msg(
    from: NodeId,
    to: NodeId,
    msg: ReliableBroadcastMessage<MsgType>,
) -> StoredMessage<ReliableBroadcastMessage<MsgType>> {
    StoredMessage::new(Header { from, to }, msg)
}

const N: usize = 4;
const F: usize = 1;

/// Echoes from the first `n - f` members, enough for our ready.
fn simulate_echo(
    rbc: &mut ReliableBroadcastInstance<MsgType>,
    quorum: &QuorumInfo,
    sender: NodeId,
    network: &mut MockNetwork,
    digest: Digest,
) {
    for i in 0..quorum.quorum_size() {
        let echo_msg = stored_msg(NodeId(i as u32), sender, ReliableBroadcastMessage::Echo(digest));
        network.process(rbc, echo_msg);
    }
}

#[test]
fn test_send_phase() {
    let quorum = quorum_info(N, F);
    let sender = sender_from_quorum(&quorum);
    let mut rbc = ReliableBroadcastInstance::<MsgType>::new(sender, quorum);
    let mut network = MockNetwork::new();
    let digest = make_digest(42);
    let send_msg = stored_msg(sender, sender, ReliableBroadcastMessage::Send(vec![], digest));

    let result = network.process(&mut rbc, send_msg);
    assert!(matches!(result, ReliableBroadcastResult::Processed));
    let sent = &network.sent[0];
    assert!(matches!(sent, ReliableBroadcastMessage::Echo(d) if *d == digest));
}

#[test]
fn test_echo_phase() {
    let quorum = quorum_info(N, F);
    let sender = sender_from_quorum(&quorum);
    let mut rbc = ReliableBroadcastInstance::<MsgType>::new(sender, quorum);
    let mut network = MockNetwork::new();
    let digest = make_digest(42);

    let send_msg = stored_msg(sender, sender, ReliableBroadcastMessage::Send(vec![], digest));
    network.process(&mut rbc, send_msg);

    for i in 1..=3 {
        let echo_msg = stored_msg(NodeId(i), sender, ReliableBroadcastMessage::Echo(digest));
        network.process(&mut rbc, echo_msg);
    }
    assert!(network.sent.iter().any(|msg| matches!(msg, ReliableBroadcastMessage::Ready(d) if *d == digest)));
}

#[test]
fn test_ready_phase_and_deliver() {
    let quorum = quorum_info(N, F);
    let sender = sender_from_quorum(&quorum);
    let mut rbc = ReliableBroadcastInstance::<MsgType>::new(sender, quorum.clone());
    let mut network = MockNetwork::new();
    let digest = make_digest(42);

    let send_msg = stored_msg(sender, sender, ReliableBroadcastMessage::Send(vec![], digest));
    network.process(&mut rbc, send_msg);

    simulate_echo(&mut rbc, &quorum, sender, &mut network, digest);

    let mut finalized = false;
    for i in 0..(quorum.f() * 2 + 1) {
        let ready_msg = stored_msg(NodeId(i as u32), sender, ReliableBroadcastMessage::Ready(digest));
        let result = network.process(&mut rbc, ready_msg);
        if let ReliableBroadcastResult::Finalized = result {
            finalized = true;
        }
    }

    assert!(finalized, "RBC should finalize after receiving 2f+1 READYs");

    let (requests, final_digest) = rbc.finalize().unwrap();

    assert_eq!(requests.len(), 0, "No requests should be finalized");
    assert_eq!(final_digest, digest, "Digest should match the one sent");
}

#[test]
fn test_not_enough_echoes_no_ready() {
    let quorum = quorum_info(N, F);
    let sender = sender_from_quorum(&quorum);
    let mut rbc = ReliableBroadcastInstance::<MsgType>::new(sender, quorum.clone());
    let mut network = MockNetwork::new();
    let digest = make_digest(1);

    let send_msg = stored_msg(sender, sender, ReliableBroadcastMessage::Send(vec![], digest));
    network.process(&mut rbc, send_msg);

    let echo_msg = stored_msg(NodeId(1), sender, ReliableBroadcastMessage::Echo(digest));
    network.process(&mut rbc, echo_msg);

    assert!(!network.sent_ready(), "Should not broadcast READY with insufficient ECHOs");
}

#[test]
fn test_duplicate_echoes_ignored() {
    let quorum = quorum_info(N, F);
    let sender = sender_from_quorum(&quorum);
    let mut rbc = ReliableBroadcastInstance::<MsgType>::new(sender, quorum.clone());
    let mut network = MockNetwork::new();
    let digest = make_digest(2);

    let send_msg = stored_msg(sender, sender, ReliableBroadcastMessage::Send(vec![], digest));
    network.process(&mut rbc, send_msg);

    let echo_msg = stored_msg(NodeId(1), sender, ReliableBroadcastMessage::Echo(digest));
    network.process(&mut rbc, stored_msg(NodeId(1), sender, ReliableBroadcastMessage::Echo(digest)));
    network.process(&mut rbc, echo_msg);

    assert!(!network.sent_ready(), "Duplicate ECHO should not trigger READY");
}

#[test]
fn test_duplicate_readies_ignored() {
    let quorum = quorum_info(N, F);
    let sender = sender_from_quorum(&quorum);
    let mut rbc = ReliableBroadcastInstance::<MsgType>::new(sender, quorum.clone());
    let mut network = MockNetwork::new();
    let digest = make_digest(3);

    let send_msg = stored_msg(sender, sender, ReliableBroadcastMessage::Send(vec![], digest));
    network.process(&mut rbc, send_msg);

    simulate_echo(&mut rbc, &quorum, sender, &mut network, digest);

    let mut finalized = false;
    for _ in 0..2 {
        let ready_msg = stored_msg(NodeId(1), sender, ReliableBroadcastMessage::Ready(digest));
        let result = network.process(&mut rbc, ready_msg);
        if let ReliableBroadcastResult::Finalized = result {
            finalized = true;
        }
    }
    assert!(!finalized, "Duplicate READY should not finalize");
}

#[test]
fn test_mismatched_digest_ignored() {
    let quorum = quorum_info(N, F);
    let sender = sender_from_quorum(&quorum);
    let mut rbc = ReliableBroadcastInstance::<MsgType>::new(sender, quorum.clone());
    let mut network = MockNetwork::new();
    let digest = make_digest(4);
    let wrong_digest = make_digest(99);

    let send_msg = stored_msg(sender, sender, ReliableBroadcastMessage::Send(vec![], digest));
    network.process(&mut rbc, send_msg);

    let echo_msg = stored_msg(NodeId(1), sender, ReliableBroadcastMessage::Echo(wrong_digest));
    let result = network.process(&mut rbc, echo_msg);

    assert!(
        matches!(result, ReliableBroadcastResult::MessageQueued),
        "Mismatched digest should be queued/ignored"
    );
}

#[test]
fn test_send_after_proposed_ignored() {
    let quorum = quorum_info(N, F);
    let sender = sender_from_quorum(&quorum);
    let mut rbc = ReliableBroadcastInstance::<MsgType>::new(sender, quorum.clone());
    let mut network = MockNetwork::new();
    let digest = make_digest(5);

    network.process(&mut rbc, stored_msg(sender, sender, ReliableBroadcastMessage::Send(vec![], digest)));

    let send_msg = stored_msg(sender, sender, ReliableBroadcastMessage::Send(vec![], digest));
    let result = network.process(&mut rbc, send_msg);
    assert!(
        matches!(result, ReliableBroadcastResult::MessageIgnored),
        "Second SEND should be ignored"
    );
}

#[test]
fn test_echo_before_send_queued() {
    let quorum = quorum_info(N, F);
    let sender = sender_from_quorum(&quorum);
    let mut rbc = ReliableBroadcastInstance::<MsgType>::new(sender, quorum.clone());
    let mut network = MockNetwork::new();
    let digest = make_digest(6);

    let echo_msg = stored_msg(NodeId(1), sender, ReliableBroadcastMessage::Echo(digest));
    let result = network.process(&mut rbc, echo_msg);

    assert!(
        matches!(result, ReliableBroadcastResult::MessageQueued),
        "ECHO before SEND should be queued"
    );
}

#[test]
fn test_ready_before_send_queued() {
    let quorum = quorum_info(N, F);
    let sender = sender_from_quorum(&quorum);
    let mut rbc = ReliableBroadcastInstance::<MsgType>::new(sender, quorum.clone());
    let mut network = MockNetwork::new();
    let digest = make_digest(7);

    let ready_msg = stored_msg(NodeId(1), sender, ReliableBroadcastMessage::Ready(digest));
    let result = network.process(&mut rbc, ready_msg);

    assert!(
        matches!(result, ReliableBroadcastResult::MessageQueued),
        "READY before SEND should be queued"
    );
}

#[test]
fn rbc_happy_path_delivers_payload() {
    let quorum = quorum_info(N, F);
    let sender = NodeId(0);
    let payload: MsgType = vec![1, 2, 3];
    let digest = Digest(*blake3::hash(&payload).as_bytes());
    let mut rbc = ReliableBroadcastInstance::<MsgType>::new(sender, quorum.clone());
    let mut network = MockNetwork::new();

    let result = network.process(&mut rbc, stored_msg(sender, sender, ReliableBroadcastMessage::Send(payload.clone(), digest)));
    assert_eq!(result, ReliableBroadcastResult::Processed);
    assert_eq!(rbc.state(), ReliableBroadcastState::Proposed);

    for i in 1..=2u32 {
        network.process(&mut rbc, stored_msg(NodeId(i), sender, ReliableBroadcastMessage::Echo(digest)));
        assert!(!network.sent_ready());
    }
    network.process(&mut rbc, stored_msg(NodeId(3), sender, ReliableBroadcastMessage::Echo(digest)));
    assert!(matches!(network.sent.last(), Some(ReliableBroadcastMessage::Ready(d)) if *d == digest));
    assert_eq!(rbc.state(), ReliableBroadcastState::Echoed);

    for i in 1..=2u32 {
        let r = network.process(&mut rbc, stored_msg(NodeId(i), sender, ReliableBroadcastMessage::Ready(digest)));
        assert_eq!(r, ReliableBroadcastResult::Processed);
    }
    let r = network.process(&mut rbc, stored_msg(NodeId(3), sender, ReliableBroadcastMessage::Ready(digest)));
    assert_eq!(r, ReliableBroadcastResult::Finalized);
    assert_eq!(rbc.state(), ReliableBroadcastState::Ready);

    let (delivered, d) = rbc.finalize().unwrap();
    assert_eq!(delivered, payload);
    assert_eq!(d, digest);
}

#[test]
fn rbc_echo_before_send_is_polled_after_send() {
    let quorum = quorum_info(N, F);
    let sender = NodeId(0);
    let digest = make_digest(8);
    let mut rbc = ReliableBroadcastInstance::<MsgType>::new(sender, quorum);
    let mut network = MockNetwork::new();

    let r = network.process(&mut rbc, stored_msg(NodeId(2), sender, ReliableBroadcastMessage::Echo(digest)));
    assert_eq!(r, ReliableBroadcastResult::MessageQueued);
    assert!(!rbc.has_pending());
    assert!(rbc.poll().is_none());

    network.process(&mut rbc, stored_msg(sender, sender, ReliableBroadcastMessage::Send(vec![9], digest)));
    assert!(rbc.has_pending());
    let queued = rbc.poll().expect("the early echo should be handed back");
    assert_eq!(queued.from(), NodeId(2));
    assert!(matches!(queued.message, ReliableBroadcastMessage::Echo(d) if d == digest));
    assert!(rbc.poll().is_none());
}

#[test]
fn rbc_finalize_before_ready_is_refused() {
    let quorum = quorum_info(N, F);
    let rbc = ReliableBroadcastInstance::<MsgType>::new(NodeId(0), quorum);
    assert_eq!(rbc.finalize().unwrap_err(), ReliableBroadcastError::NotReadyToFinalize);
}

#[test]
fn rbc_readies_while_proposed_are_queued_and_polled_in_order() {
    let quorum = quorum_info(N, F);
    let sender = NodeId(0);
    let digest = make_digest(10);
    let mut rbc = ReliableBroadcastInstance::<MsgType>::new(sender, quorum.clone());
    let mut network = MockNetwork::new();
    network.process(&mut rbc, stored_msg(sender, sender, ReliableBroadcastMessage::Send(vec![], digest)));
    for i in [3u32, 1] {
        let r = network.process(&mut rbc, stored_msg(NodeId(i), sender, ReliableBroadcastMessage::Ready(digest)));
        assert_eq!(r, ReliableBroadcastResult::MessageQueued);
    }
    assert!(rbc.poll().is_none(), "readies wait until the instance has echoed");
    simulate_echo(&mut rbc, &quorum, sender, &mut network, digest);
    assert_eq!(rbc.poll().unwrap().from(), NodeId(3));
    assert_eq!(rbc.poll().unwrap().from(), NodeId(1));
    assert!(rbc.poll().is_none());
}

#[test]
fn rbc_duplicate_echo_returns_processed_without_effect() {
    let quorum = quorum_info(N, F);
    let sender = NodeId(0);
    let digest = make_digest(11);
    let mut rbc = ReliableBroadcastInstance::<MsgType>::new(sender, quorum);
    let mut network = MockNetwork::new();
    network.process(&mut rbc, stored_msg(sender, sender, ReliableBroadcastMessage::Send(vec![], digest)));
    let before = network.sent.len();
    let r1 = network.process(&mut rbc, stored_msg(NodeId(1), sender, ReliableBroadcastMessage::Echo(digest)));
    let r2 = network.process(&mut rbc, stored_msg(NodeId(1), sender, ReliableBroadcastMessage::Echo(digest)));
    assert_eq!(r1, ReliableBroadcastResult::Processed);
    assert_eq!(r2, ReliableBroadcastResult::Processed);
    assert_eq!(network.sent.len(), before);
    assert_eq!(rbc.state(), ReliableBroadcastState::Proposed);
    assert!(!rbc.has_pending());
}
