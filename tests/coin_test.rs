use dumbo_bft::aba_messages::BoolSet;
use dumbo_bft::aba_round::{AsyncBinaryAgreementState, RoundData, RoundDataVoteAcceptResult};
use dumbo_bft::coin::{coin_message, coin_of_digest, flip_coin};
use dumbo_bft::node::NodeId;
use dumbo_bft::protocol::{get_f_for_n, get_n_for_f, get_quorum_for_n};
use threshold_crypto::poly::Poly;
use threshold_crypto::{PublicKeySet, SecretKeySet};

#[test]
fn coin_message_is_little_endian() {
    assert_eq!(coin_message(0), vec![0u8; 8]);
    assert_eq!(coin_message(1), vec![1, 0, 0, 0, 0, 0, 0, 0]);
    assert_eq!(coin_message(0x0102_0304_0506_0708), vec![8, 7, 6, 5, 4, 3, 2, 1]);
    assert_eq!(coin_message(7), 7usize.to_le_bytes().to_vec());
}

#[test]
fn coin_of_digest_reads_parity_of_last_byte() {
    let mut d = [1u8; 32];
    assert!(!coin_of_digest(&d));
    d[31] = 2;
    assert!(coin_of_digest(&d));
    d[0] = 3;
    assert!(coin_of_digest(&d));
}

#[test]
fn flip_coin_is_the_parity_of_the_hashed_combined_signature() {
    let keys = SecretKeySet::from(Poly::monomial(1) + 5u64);
    let msg = coin_message(3);
    let shares: Vec<_> = (0..3u32).map(|i| (NodeId(i), keys.secret_key_share(i as usize).sign(&msg))).collect();
    let combined = keys.public_keys().combine_signatures(shares.iter().map(|(n, s)| (n.0 as usize, s))).unwrap();
    let bytes = bincode::serde::encode_to_vec(&combined, bincode::config::standard()).unwrap();
    let expected = blake3::hash(&bytes).as_bytes()[31] % 2 == 0;
    assert_eq!(flip_coin(&keys.public_keys(), &shares), Ok(expected));
    // any f + 1 shares give the same coin
    let other: Vec<_> = vec![shares[2].clone(), shares[1].clone()];
    assert_eq!(flip_coin(&keys.public_keys(), &other), Ok(expected));
}

#[test]
fn flip_coin_refuses_too_few_shares() {
    let keys = SecretKeySet::from(Poly::monomial(1) + 5u64);
    let msg = coin_message(0);
    let shares = vec![(NodeId(0), keys.secret_key_share(0usize).sign(&msg))];
    assert!(flip_coin(&keys.public_keys(), &shares).is_err());
}

#[test]
fn round_coin_outcomes() {
    let keys = SecretKeySet::from(Poly::monomial(1) + 5u64).public_keys();
    // {true} with coin true: finish on true, announcing it once
    let mut round = RoundData::new(1, keys.clone(), false);
    assert_eq!(round.apply_coin(BoolSet::single(true), Some(true)), RoundDataVoteAcceptResult::BroadcastFinalized(true));
    assert_eq!(round.state(), AsyncBinaryAgreementState::Finishing);
    assert_eq!(round.estimate(), true);
    assert_eq!(round.apply_coin(BoolSet::single(true), Some(true)), RoundDataVoteAcceptResult::Accepted);
    // {true} with coin false: fail keeping true
    let mut round = RoundData::new(1, keys.clone(), false);
    assert_eq!(round.apply_coin(BoolSet::single(true), Some(false)), RoundDataVoteAcceptResult::Failed(true));
    assert_eq!(round.state(), AsyncBinaryAgreementState::CollectingVal);
    // {false, true}: fail with the coin
    let both = BoolSet::from_values(&vec![true, false]);
    let mut round = RoundData::new(1, keys.clone(), false);
    assert_eq!(round.apply_coin(both, Some(true)), RoundDataVoteAcceptResult::Failed(true));
    assert_eq!(round.apply_coin(both, Some(false)), RoundDataVoteAcceptResult::Failed(false));
    // no coin: fail keeping the estimate
    let mut round = RoundData::new(1, keys, true);
    assert_eq!(round.apply_coin(BoolSet::single(false), None), RoundDataVoteAcceptResult::Failed(true));
}

#[test]
fn round_thresholds_with_f_2() {
    let keys = SecretKeySet::from(Poly::monomial(2) + 1u64).public_keys();
    let mut round = RoundData::new(2, keys, true);
    assert_eq!(round.accept_estimate(NodeId(0), false), RoundDataVoteAcceptResult::Accepted);
    assert_eq!(round.accept_estimate(NodeId(1), false), RoundDataVoteAcceptResult::Accepted);
    assert_eq!(round.accept_estimate(NodeId(2), false), RoundDataVoteAcceptResult::BroadcastEst(false));
    assert_eq!(round.accept_estimate(NodeId(3), false), RoundDataVoteAcceptResult::Accepted);
    assert_eq!(round.accept_estimate(NodeId(3), false), RoundDataVoteAcceptResult::AlreadyAccepted);
    assert_eq!(round.accept_auxiliary(NodeId(0), BoolSet::single(false)), RoundDataVoteAcceptResult::Queue);
    assert_eq!(round.accept_finish(NodeId(0), false), RoundDataVoteAcceptResult::Queue);
    assert_eq!(round.accept_estimate(NodeId(4), false), RoundDataVoteAcceptResult::BroadcastAux(BoolSet::single(false)));
    assert_eq!(round.state(), AsyncBinaryAgreementState::CollectingAux);
    // an aux set outside the accepted values never completes
    for i in 0..5u32 {
        assert_eq!(round.accept_auxiliary(NodeId(i), BoolSet::single(true)), RoundDataVoteAcceptResult::Accepted);
    }
    for i in 0..4u32 {
        assert_eq!(round.accept_auxiliary(NodeId(i), BoolSet::single(false)), RoundDataVoteAcceptResult::Accepted);
    }
    assert_eq!(round.accept_auxiliary(NodeId(4), BoolSet::single(false)), RoundDataVoteAcceptResult::BroadcastConf(BoolSet::single(false)));
    assert_eq!(round.accept_estimate(NodeId(5), true), RoundDataVoteAcceptResult::Ignored);
}

#[test]
fn tolerance_formulas() {
    assert_eq!(get_n_for_f(0), 1);
    assert_eq!(get_n_for_f(1), 4);
    assert_eq!(get_n_for_f(3), 10);
    assert_eq!(get_f_for_n(4), 1);
    assert_eq!(get_f_for_n(7), 2);
    assert_eq!(get_f_for_n(1), 0);
    assert_eq!(get_quorum_for_n(4), 1);
    assert_eq!(get_quorum_for_n(7), 3);
}

#[test]
fn bool_set_members() {
    let s = BoolSet::from_values(&vec![true, true]);
    assert_eq!(s.len(), 1);
    assert!(s.contains(true) && !s.contains(false));
    assert_eq!(s.to_values(), vec![true]);
    let both = BoolSet::from_values(&vec![true, false]);
    assert_eq!(both.to_values(), vec![false, true]);
    assert!(s.is_subset(&both));
    assert!(!both.is_subset(&s));
    assert!(BoolSet::empty().is_subset(&s));
}

#[test]
fn flip_coin_refuses_an_empty_key_set() {
    let keys = SecretKeySet::from(Poly::monomial(1) + 5u64);
    let msg = coin_message(0);
    let shares: Vec<_> = (0..3u32).map(|i| (NodeId(i), keys.secret_key_share(i as usize).sign(&msg))).collect();
    let empty = PublicKeySet::from(Poly::zero().commitment());
    assert_eq!(flip_coin(&empty, &shares), Err(dumbo_bft::coin::CoinError::CombineSignature));
}
