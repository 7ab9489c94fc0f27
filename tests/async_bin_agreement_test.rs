use dumbo_bft::aba::{AsyncBinaryAgreement, AsyncBinaryAgreementResult};
use dumbo_bft::aba_messages::{AsyncBinaryAgreementMessage, AsyncBinaryAgreementMessageType, BoolSet};
use dumbo_bft::aba_round::AsyncBinaryAgreementState;
use dumbo_bft::coin::coin_message;
use dumbo_bft::node::{Header, NodeId, StoredMessage};
use dumbo_bft::quorum_info::QuorumInfo;
use std::collections::HashSet;
use threshold_crypto::poly::Poly;
use threshold_crypto::SecretKeySet;

const N: usize = 4;
const F: usize = 1;

fn quorum_info(n: usize, f: usize) -> QuorumInfo {
    QuorumInfo::new(n, f, (0..n).map(|i| NodeId(i as u32)).collect())
}

/// A fixed threshold key set of threshold `f`, one per `seed`.
fn key_set(f: usize, seed: u64) -> SecretKeySet {
    SecretKeySet::from(Poly::monomial(f) + seed)
}

struct TestData {
    node_id: NodeId,
    sent: Vec<AsyncBinaryAgreementMessage>,
    key_set: SecretKeySet,
    aba: AsyncBinaryAgreement,
}

impl TestData {
    fn new(id: NodeId, n: usize, f: usize, initial_estimate: bool) -> Self {
        Self::with_seed(id, n, f, initial_estimate, 7)
    }

    fn with_seed(id: NodeId, n: usize, f: usize, initial_estimate: bool, seed: u64) -> Self {
        let key_set = key_set(f, seed);
        let aba = AsyncBinaryAgreement::new(
            initial_estimate,
            quorum_info(n, f),
            key_set.public_keys(),
            key_set.secret_key_share(id.0 as usize),
        );
        TestData { node_id: id, sent: vec![], key_set, aba }
    }

    fn accept_message(&mut self, from: NodeId, msg: AsyncBinaryAgreementMessage) -> AsyncBinaryAgreementResult {
        let stored = StoredMessage::new(Header { from, to: self.node_id }, msg);
        let (result, out) = self.aba.process_message(stored);
        if let Some(m) = out {
            self.sent.push(m);
        }
        result
    }
}

fn get_val_message(estimate: bool, round: Option<usize>) -> AsyncBinaryAgreementMessage {
    AsyncBinaryAgreementMessage::new(AsyncBinaryAgreementMessageType::Val { estimate }, round.unwrap_or(0))
}

fn get_aux_message(accepted_estimates: Vec<bool>, round: Option<usize>) -> AsyncBinaryAgreementMessage {
    AsyncBinaryAgreementMessage::new(
        AsyncBinaryAgreementMessageType::Aux { accepted_estimates: BoolSet::from_values(&accepted_estimates) },
        round.unwrap_or(0),
    )
}

fn get_conf_message(
    feasible_values: Vec<bool>,
    signature_set: &SecretKeySet,
    node: NodeId,
    round: Option<usize>,
) -> AsyncBinaryAgreementMessage {
    let signature = signature_set
        .secret_key_share(node.0 as usize)
        .sign(coin_message(round.unwrap_or(0) as u64));
    AsyncBinaryAgreementMessage::new(
        AsyncBinaryAgreementMessageType::Conf {
            feasible_values: BoolSet::from_values(&feasible_values),
            partial_signature: signature,
        },
        round.unwrap_or(0),
    )
}

fn get_finish_message(final_value: bool, round: Option<usize>) -> AsyncBinaryAgreementMessage {
    AsyncBinaryAgreementMessage::new(AsyncBinaryAgreementMessageType::Finish { value: final_value }, round.unwrap_or(0))
}

fn perform_full_val_round(test_data: &mut TestData, test_message: AsyncBinaryAgreementMessage) {
    for replica in 0..(2 * F + 1) {
        let result = test_data.accept_message(NodeId(replica as u32), test_message.clone());
        assert!(matches!(result, AsyncBinaryAgreementResult::Processed))
    }
}

fn perform_full_aux_round(test_data: &mut TestData, test_message: AsyncBinaryAgreementMessage) {
    for replica in 0..(2 * F + 1) {
        let result = test_data.accept_message(NodeId(replica as u32), test_message.clone());
        assert!(matches!(result, AsyncBinaryAgreementResult::Processed))
    }
}

fn perform_full_conf_round(test_data: &mut TestData, initial_estimate: bool, round: Option<usize>) {
    for replica in 0..(2 * F + 1) {
        let conf_message = get_conf_message(vec![initial_estimate], &test_data.key_set, NodeId(replica as u32), round);
        let result = test_data.accept_message(NodeId(replica as u32), conf_message);
        assert!(matches!(result, AsyncBinaryAgreementResult::Processed))
    }
}

fn perform_all_rounds_until_conf_success(test_data: &mut TestData, initial_estimate: bool) -> usize {
    let mut round = 0;
    loop {
        perform_full_val_round(test_data, get_val_message(initial_estimate, Some(round)));
        perform_full_aux_round(test_data, get_aux_message(vec![initial_estimate], Some(round)));
        perform_full_conf_round(test_data, initial_estimate, Some(round));
        if matches!(test_data.aba.current_round().state(), AsyncBinaryAgreementState::Finishing) {
            break round;
        }
        round += 1;
    }
}

fn is_val(m: &AsyncBinaryAgreementMessage, value: bool) -> bool {
    matches!(m.message_type(), AsyncBinaryAgreementMessageType::Val { estimate } if *estimate == value)
}

fn is_aux_of(m: &AsyncBinaryAgreementMessage, value: bool) -> bool {
    matches!(m.message_type(), AsyncBinaryAgreementMessageType::Aux { accepted_estimates }
        if accepted_estimates.len() == 1 && accepted_estimates.contains(value))
}

#[test]
fn test_val_round_first_stage() {
    const INITIAL_ESTIMATE: bool = true;
    let mut test_data = TestData::new(NodeId(0), N, F, INITIAL_ESTIMATE);
    let test_message = get_val_message(INITIAL_ESTIMATE, None);

    for i in 1..=F {
        let result = test_data.accept_message(NodeId(i as u32), test_message.clone());
        assert!(matches!(result, AsyncBinaryAgreementResult::Processed))
    }

    let result = test_data.accept_message(NodeId((F + 1) as u32), test_message.clone());
    assert!(matches!(result, AsyncBinaryAgreementResult::Processed));
    assert_eq!(1, test_data.sent.len());
    assert!(test_data.sent.iter().any(|m| is_val(m, INITIAL_ESTIMATE)));
}

#[test]
fn test_val_round_second_stage() {
    const INITIAL_ESTIMATE: bool = true;
    let mut test_data = TestData::new(NodeId(0), N, F, INITIAL_ESTIMATE);
    perform_full_val_round(&mut test_data, get_val_message(INITIAL_ESTIMATE, None));

    assert_eq!(2, test_data.sent.len());
    assert!(test_data.sent.iter().any(|m| is_val(m, INITIAL_ESTIMATE)));
    assert!(test_data.sent.iter().any(|m| is_aux_of(m, INITIAL_ESTIMATE)));
}

#[test]
fn test_val_round_ignored() {
    const INITIAL_ESTIMATE: bool = true;
    let mut test_data = TestData::new(NodeId(0), N, F, INITIAL_ESTIMATE);
    let test_message = get_val_message(INITIAL_ESTIMATE, None);
    perform_full_val_round(&mut test_data, test_message.clone());

    let result = test_data.accept_message(NodeId((2 * F + 1) as u32), test_message.clone());
    assert!(matches!(result, AsyncBinaryAgreementResult::MessageIgnored));
    assert_eq!(2, test_data.sent.len());
}

#[test]
fn test_aux_round() {
    const INITIAL_ESTIMATE: bool = true;
    let mut test_data = TestData::new(NodeId(0), N, F, INITIAL_ESTIMATE);
    perform_full_val_round(&mut test_data, get_val_message(INITIAL_ESTIMATE, None));

    let aux_message = get_aux_message(vec![INITIAL_ESTIMATE], None);
    perform_full_aux_round(&mut test_data, aux_message.clone());

    let result = test_data.accept_message(NodeId((F + 1) as u32), aux_message.clone());
    assert!(matches!(result, AsyncBinaryAgreementResult::MessageIgnored));
    assert_eq!(3, test_data.sent.len());
    assert!(test_data.sent.iter().any(|m| is_aux_of(m, INITIAL_ESTIMATE)));
    assert!(matches!(test_data.aba.current_round().state(), AsyncBinaryAgreementState::CollectingConf));
}

#[test]
fn test_conf_round() {
    const INITIAL_ESTIMATE: bool = true;
    let mut achieved_results = HashSet::<AsyncBinaryAgreementState>::default();
    let mut seed: u64 = 1;

    while achieved_results.len() < 2 {
        assert!(seed < 200, "both coin outcomes should appear among the key sets tried");
        let mut test_data = TestData::with_seed(NodeId(0), N, F, INITIAL_ESTIMATE, seed);
        perform_full_val_round(&mut test_data, get_val_message(INITIAL_ESTIMATE, None));
        perform_full_aux_round(&mut test_data, get_aux_message(vec![INITIAL_ESTIMATE], None));
        perform_full_conf_round(&mut test_data, INITIAL_ESTIMATE, None);

        let state = test_data.aba.current_round().state();
        assert!(
            matches!(state, AsyncBinaryAgreementState::Finishing)
                || matches!(state, AsyncBinaryAgreementState::CollectingVal)
        );
        if matches!(state, AsyncBinaryAgreementState::CollectingVal) {
            assert_eq!(1, test_data.aba.round())
        }
        achieved_results.insert(state);
        seed += 1;
    }
}

#[test]
fn test_finish_round_f_1() {
    const INITIAL_ESTIMATE: bool = true;
    let mut test_data = TestData::new(NodeId(0), N, F, INITIAL_ESTIMATE);
    perform_all_rounds_until_conf_success(&mut test_data, INITIAL_ESTIMATE);
}

#[test]
fn test_finish_round_f_plus_1_broadcast() {
    const INITIAL_ESTIMATE: bool = true;
    let mut test_data = TestData::new(NodeId(0), N, F, INITIAL_ESTIMATE);
    let round = perform_all_rounds_until_conf_success(&mut test_data, INITIAL_ESTIMATE);

    let sent_messages_before = test_data.sent.len();

    for i in 1..=F {
        let result = test_data.accept_message(NodeId(i as u32), get_finish_message(INITIAL_ESTIMATE, Some(round)));
        assert!(matches!(result, AsyncBinaryAgreementResult::Processed));
    }
    assert_eq!(sent_messages_before, test_data.sent.len());

    let result = test_data.accept_message(NodeId((F + 1) as u32), get_finish_message(INITIAL_ESTIMATE, Some(round)));
    assert!(matches!(result, AsyncBinaryAgreementResult::Processed));

    assert!(test_data.sent.iter().any(|m| matches!(m.message_type(),
        AsyncBinaryAgreementMessageType::Finish { value } if *value == INITIAL_ESTIMATE)));
}

#[test]
fn test_finish_round_2f_plus_1_finalization() {
    const INITIAL_ESTIMATE: bool = true;
    let mut test_data = TestData::new(NodeId(0), N, F, INITIAL_ESTIMATE);
    let round = perform_all_rounds_until_conf_success(&mut test_data, INITIAL_ESTIMATE);

    for i in 0..(2 * F + 1) {
        let result = test_data.accept_message(NodeId(i as u32), get_finish_message(INITIAL_ESTIMATE, Some(round)));
        if i < 2 * F {
            assert!(matches!(result, AsyncBinaryAgreementResult::Processed));
        } else {
            assert!(matches!(result, AsyncBinaryAgreementResult::Decided(value) if value == INITIAL_ESTIMATE));
        }
    }
}

#[test]
fn test_future_round_message_is_queued() {
    const INITIAL_ESTIMATE: bool = true;
    let mut test_data = TestData::new(NodeId(0), N, F, INITIAL_ESTIMATE);

    let result = test_data.accept_message(NodeId(1), get_val_message(INITIAL_ESTIMATE, Some(1)));
    assert!(matches!(result, AsyncBinaryAgreementResult::MessageQueued));

    test_data.aba.advance_round(INITIAL_ESTIMATE);
    assert_eq!(1, test_data.aba.round());

    let pending = test_data.aba.poll();
    assert!(pending.is_some(), "Expected a queued message, but found none");
    let pending_msg = pending.unwrap();
    assert_eq!(1, pending_msg.message.round(), "Expected the queued message to be for round 1");
}

#[test]
fn test_past_round_message_is_ignored() {
    const INITIAL_ESTIMATE: bool = true;
    let mut test_data = TestData::new(NodeId(0), N, F, INITIAL_ESTIMATE);
    test_data.aba.advance_round(INITIAL_ESTIMATE);
    assert_eq!(1, test_data.aba.round());

    let result = test_data.accept_message(NodeId(1), get_val_message(INITIAL_ESTIMATE, Some(0)));
    assert!(matches!(result, AsyncBinaryAgreementResult::MessageIgnored));
}

#[test]
fn test_out_of_order_message_is_queued() {
    const INITIAL_ESTIMATE: bool = true;
    let mut test_data = TestData::new(NodeId(0), N, F, INITIAL_ESTIMATE);
    let result = test_data.accept_message(NodeId(1), get_aux_message(vec![INITIAL_ESTIMATE], Some(0)));
    assert!(matches!(result, AsyncBinaryAgreementResult::MessageQueued));
}

#[test]
fn test_duplicate_messages_are_ignored() {
    const INITIAL_ESTIMATE: bool = true;
    let mut test_data = TestData::new(NodeId(0), N, F, INITIAL_ESTIMATE);
    let val_message = get_val_message(INITIAL_ESTIMATE, Some(0));
    let result = test_data.accept_message(NodeId(1), val_message.clone());
    assert!(matches!(result, AsyncBinaryAgreementResult::Processed));
    let result = test_data.accept_message(NodeId(1), val_message);
    assert!(matches!(result, AsyncBinaryAgreementResult::MessageIgnored));
}

#[test]
fn test_erroneous_messages_in_finishing_state() {
    const INITIAL_ESTIMATE: bool = true;
    let mut test_data = TestData::new(NodeId(0), N, F, INITIAL_ESTIMATE);
    let round = perform_all_rounds_until_conf_success(&mut test_data, INITIAL_ESTIMATE);

    let result = test_data.accept_message(NodeId(1), get_val_message(INITIAL_ESTIMATE, Some(round)));
    assert!(matches!(result, AsyncBinaryAgreementResult::MessageIgnored));

    let result = test_data.accept_message(NodeId(1), get_aux_message(vec![INITIAL_ESTIMATE], Some(round)));
    assert!(matches!(result, AsyncBinaryAgreementResult::MessageIgnored));

    let conf_message = get_conf_message(vec![INITIAL_ESTIMATE], &test_data.key_set, NodeId(1), Some(round));
    let result = test_data.accept_message(NodeId(1), conf_message);
    assert!(matches!(result, AsyncBinaryAgreementResult::MessageIgnored));
}

#[test]
fn aba_val_fan_out_scenario() {
    let mut test_data = TestData::new(NodeId(0), N, F, true);
    let r = test_data.accept_message(NodeId(1), get_val_message(true, None));
    assert_eq!(r, AsyncBinaryAgreementResult::Processed);
    assert!(test_data.sent.is_empty());
    let r = test_data.accept_message(NodeId(2), get_val_message(true, None));
    assert_eq!(r, AsyncBinaryAgreementResult::Processed);
    assert_eq!(test_data.sent.len(), 1);
    assert!(is_val(&test_data.sent[0], true));
    assert_eq!(test_data.sent[0].round(), 0);
    let r = test_data.accept_message(NodeId(3), get_val_message(true, None));
    assert_eq!(r, AsyncBinaryAgreementResult::Processed);
    assert_eq!(test_data.sent.len(), 2);
    assert!(is_aux_of(&test_data.sent[1], true));
    assert_eq!(test_data.aba.current_round().state(), AsyncBinaryAgreementState::CollectingAux);
    assert!(test_data.aba.current_round().values().contains(true));
    assert!(!test_data.aba.current_round().values().contains(false));

    // the same vote again changes nothing and sends nothing
    let r = test_data.accept_message(NodeId(1), get_val_message(true, None));
    assert_eq!(r, AsyncBinaryAgreementResult::MessageIgnored);
    assert_eq!(test_data.sent.len(), 2);
}

#[test]
fn aba_duplicate_val_in_collecting_val_is_ignored_without_broadcast() {
    let mut test_data = TestData::new(NodeId(0), N, F, true);
    test_data.accept_message(NodeId(1), get_val_message(false, None));
    let r = test_data.accept_message(NodeId(1), get_val_message(false, None));
    assert_eq!(r, AsyncBinaryAgreementResult::MessageIgnored);
    assert!(test_data.sent.is_empty());
    assert_eq!(test_data.aba.current_round().state(), AsyncBinaryAgreementState::CollectingVal);
}

#[test]
fn aba_past_round_ignored_and_future_round_pollable() {
    let mut test_data = TestData::new(NodeId(0), N, F, true);
    let early = get_val_message(false, Some(1));
    assert_eq!(test_data.accept_message(NodeId(2), early), AsyncBinaryAgreementResult::MessageQueued);
    assert!(test_data.aba.poll().is_none(), "nothing is pollable before its round");
    test_data.aba.advance_round(true);
    assert_eq!(test_data.accept_message(NodeId(1), get_val_message(true, Some(0))), AsyncBinaryAgreementResult::MessageIgnored);
    let polled = test_data.aba.poll().expect("the round-1 message is pollable now");
    assert_eq!(polled.from(), NodeId(2));
    assert_eq!(polled.message.round(), 1);
    assert!(test_data.aba.poll().is_none());
    assert_eq!(test_data.aba.current_round().estimate(), true);
}

#[test]
fn aba_queued_messages_come_back_in_arrival_order() {
    let mut test_data = TestData::new(NodeId(0), N, F, true);
    for from in [3u32, 1, 2] {
        let r = test_data.accept_message(NodeId(from), get_aux_message(vec![true], Some(0)));
        assert_eq!(r, AsyncBinaryAgreementResult::MessageQueued);
    }
    for from in [3u32, 1, 2] {
        assert_eq!(test_data.aba.poll().unwrap().from(), NodeId(from));
    }
    assert!(test_data.aba.poll().is_none());
}

#[test]
fn aba_full_happy_path_decides_true() {
    let mut test_data = TestData::new(NodeId(0), N, F, true);
    let round = perform_all_rounds_until_conf_success(&mut test_data, true);
    assert_eq!(test_data.aba.round(), round);
    assert_eq!(test_data.aba.current_round().estimate(), true);
    assert!(test_data.sent.iter().any(|m| matches!(m.message_type(),
        AsyncBinaryAgreementMessageType::Conf { feasible_values, .. } if feasible_values.len() == 1 && feasible_values.contains(true))));
    // every confirmation we sent carries our share over its round's coin message
    for m in test_data.sent.iter() {
        if let AsyncBinaryAgreementMessageType::Conf { partial_signature, .. } = m.message_type() {
            let expected = test_data.key_set.secret_key_share(0usize).sign(coin_message(m.round() as u64));
            assert_eq!(*partial_signature, expected);
        }
    }
    assert!(matches!(test_data.sent.last().unwrap().message_type(), AsyncBinaryAgreementMessageType::Finish { value: true }));
    let mut decided = None;
    for i in 0..3u32 {
        if let AsyncBinaryAgreementResult::Decided(v) = test_data.accept_message(NodeId(i), get_finish_message(true, Some(round))) {
            decided = Some(v);
        }
    }
    assert_eq!(decided, Some(true));
    // a further finish is a duplicate of no effect
    let r = test_data.accept_message(NodeId(0), get_finish_message(true, Some(round)));
    assert_eq!(r, AsyncBinaryAgreementResult::MessageIgnored);
    // a finish from a node not heard yet does not decide a second time
    let sent = test_data.sent.len();
    let r = test_data.accept_message(NodeId(3), get_finish_message(true, Some(round)));
    assert_eq!(r, AsyncBinaryAgreementResult::MessageIgnored);
    assert_eq!(test_data.sent.len(), sent);
}

#[test]
fn aba_failed_round_keeps_the_estimate() {
    // find a key set whose first coin is `false`: the round then fails with `true`
    let mut seed: u64 = 1;
    loop {
        assert!(seed < 200);
        let mut test_data = TestData::with_seed(NodeId(0), N, F, true, seed);
        perform_full_val_round(&mut test_data, get_val_message(true, None));
        perform_full_aux_round(&mut test_data, get_aux_message(vec![true], None));
        perform_full_conf_round(&mut test_data, true, None);
        if test_data.aba.round() == 1 {
            assert_eq!(test_data.aba.current_round().state(), AsyncBinaryAgreementState::CollectingVal);
            assert_eq!(test_data.aba.current_round().estimate(), true);
            break;
        }
        seed += 1;
    }
}
