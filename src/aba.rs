use vstd::prelude::*;
use threshold_crypto::{PublicKeySet, SecretKeyShare};
use crate::aba_messages::{AsyncBinaryAgreementMessage, AsyncBinaryAgreementMessageType, BoolSet};
use crate::node::NodeId;
use threshold_crypto::SignatureShare;
use crate::aba_pending::{PendingMessage, PendingMessages};
use crate::aba_round::{records_share, fresh_round, val_step, aux_step, conf_step, finish_step, RoundData, RoundDataVoteAcceptResult, RoundView};
use crate::coin::{coin_message, coin_of, le_bytes, share_of, sign_share};
use crate::quorum_info::QuorumInfo;

verus! {

/// What processing one message did to a binary agreement.
#[derive(Clone, Copy, Debug, PartialEq, Eq, Structural)]
pub enum AsyncBinaryAgreementResult {
    MessageQueued,
    MessageIgnored,
    Processed,
    Decided(bool),
}

/// The round-level outcome of a message of kind `mt` from `sender`, for a
/// given common coin (read only by a confirmation that completes a quorum).
pub open spec fn round_step(
    v: RoundView,
    sender: crate::node::NodeId,
    mt: AsyncBinaryAgreementMessageType,
    coin: Option<bool>,
) -> (RoundDataVoteAcceptResult, RoundView) {
    match mt {
        AsyncBinaryAgreementMessageType::Val { estimate } => val_step(v, sender, estimate),
        AsyncBinaryAgreementMessageType::Aux { accepted_estimates } => aux_step(v, sender, accepted_estimates),
        AsyncBinaryAgreementMessageType::Conf { feasible_values, .. } => conf_step(v, sender, feasible_values, coin),
        AsyncBinaryAgreementMessageType::Finish { value } => finish_step(v, sender, value),
    }
}

/// How a round outcome is reported to the caller.
pub open spec fn reported(res: RoundDataVoteAcceptResult) -> AsyncBinaryAgreementResult {
    match res {
        RoundDataVoteAcceptResult::Queue => AsyncBinaryAgreementResult::MessageQueued,
        RoundDataVoteAcceptResult::Ignored | RoundDataVoteAcceptResult::AlreadyAccepted => {
            AsyncBinaryAgreementResult::MessageIgnored
        },
        RoundDataVoteAcceptResult::Finalized(b) => AsyncBinaryAgreementResult::Decided(b),
        _ => AsyncBinaryAgreementResult::Processed,
    }
}

/// The message a round outcome makes us broadcast to every member, stamped
/// with `round`; a confirmation carries our share over the round's coin
/// message.
pub open spec fn broadcast_for(
    res: RoundDataVoteAcceptResult,
    round: usize,
    key: SecretKeyShare,
    out: Option<AsyncBinaryAgreementMessage>,
) -> bool {
    match res {
        RoundDataVoteAcceptResult::BroadcastEst(b) => out == Some(
            AsyncBinaryAgreementMessage { round, message_type: AsyncBinaryAgreementMessageType::Val { estimate: b } },
        ),
        RoundDataVoteAcceptResult::BroadcastAux(s) => out == Some(
            AsyncBinaryAgreementMessage {
                round,
                message_type: AsyncBinaryAgreementMessageType::Aux { accepted_estimates: s },
            },
        ),
        RoundDataVoteAcceptResult::BroadcastConf(s) => out == Some(
            AsyncBinaryAgreementMessage {
                round,
                message_type: AsyncBinaryAgreementMessageType::Conf {
                    feasible_values: s,
                    partial_signature: share_of(key, le_bytes(round as u64)),
                },
            },
        ),
        RoundDataVoteAcceptResult::BroadcastFinalized(b) => out == Some(
            AsyncBinaryAgreementMessage { round, message_type: AsyncBinaryAgreementMessageType::Finish { value: b } },
        ),
        _ => out is None,
    }
}

/// One binary agreement: a sequence of rounds, messages of later rounds held
/// back until their round comes.
pub struct AsyncBinaryAgreement {
    round: usize,
    input_bit: bool,
    quorum_info: QuorumInfo,
    current_round: RoundData,
    previous_rounds: Vec<RoundData>,
    pending_messages: PendingMessages,
    public_keys: PublicKeySet,
    key_share: SecretKeyShare,
}

impl AsyncBinaryAgreement {
    pub closed spec fn spec_round(&self) -> usize {
        self.round
    }

    pub closed spec fn input(&self) -> bool {
        self.input_bit
    }

    pub closed spec fn quorum(&self) -> QuorumInfo {
        self.quorum_info
    }

    pub closed spec fn current(&self) -> RoundView {
        self.current_round@
    }

    /// Our share of the threshold key.
    pub closed spec fn key(&self) -> SecretKeyShare {
        self.key_share
    }

    /// The threshold keys the coin of every round is checked against.
    pub closed spec fn public_keys(&self) -> PublicKeySet {
        self.public_keys
    }

    /// The keys the current round checks its coin against: the instance's.
    pub open spec fn current_keys(&self) -> PublicKeySet {
        self.public_keys()
    }

    /// The shares the current round has recorded with confirmations of `s`.
    pub closed spec fn current_shares(&self, s: crate::aba_messages::BoolSet) -> Seq<(crate::node::NodeId, threshold_crypto::SignatureShare)> {
        self.current_round.shares_for(s)
    }

    /// The shares the current round holds for `s` after taking `message`: a
    /// confirmation adds its share to its set's when the round records it.
    pub open spec fn shares_after(&self, message: PendingMessage, s: BoolSet) -> Seq<(NodeId, SignatureShare)> {
        match message.message.message_type {
            AsyncBinaryAgreementMessageType::Conf { feasible_values, partial_signature } => if s
                == feasible_values && records_share(self.current(), message.header.from, feasible_values) {
                self.current_shares(feasible_values).push((message.header.from, partial_signature))
            } else {
                self.current_shares(s)
            },
            _ => self.current_shares(s),
        }
    }

    /// Every round's recorded shares are as in `other`.
    pub open spec fn same_shares(&self, other: &Self) -> bool {
        forall|s: BoolSet| #[trigger] self.current_shares(s) == other.current_shares(s)
    }

    /// The coin a message of the current round would draw: for a
    /// confirmation, the coin of the shares recorded for its set together
    /// with its own; nothing for the other kinds.
    pub open spec fn drawn_coin(&self, message: PendingMessage) -> Option<bool> {
        match message.message.message_type {
            AsyncBinaryAgreementMessageType::Conf { feasible_values, partial_signature } => coin_of(
                self.current_keys(),
                self.current_shares(feasible_values).push((message.header.from, partial_signature)),
            ),
            _ => None,
        }
    }

    pub closed spec fn previous(&self) -> Seq<RoundView> {
        self.previous_rounds@.map_values(|r: RoundData| r@)
    }

    pub closed spec fn pending(&self) -> PendingMessages {
        self.pending_messages
    }

    pub closed spec fn wf(&self) -> bool {
        &&& self.quorum_info.wf()
        &&& self.current_round.wf()
        &&& self.current_round@.f == self.quorum_info.spec_f()
        &&& self.current_round.keys() == self.public_keys
        &&& self.pending_messages.wf()
        &&& self.pending_messages.base() <= self.round
        &&& forall|q: int, i: int| 0 <= i < self.pending_messages.queued(q).len()
            ==> (#[trigger] self.pending_messages.queued(q)[i]).message.round == q
    }

    /// Everything as in `other`.
    pub open spec fn same_state(&self, other: &Self) -> bool {
        &&& self.same_shares(other)
        &&& self.key() == other.key()
        &&& self.public_keys() == other.public_keys()
        &&& self.spec_round() == other.spec_round()
        &&& self.input() == other.input()
        &&& self.quorum() == other.quorum()
        &&& self.current() == other.current()
        &&& self.previous() == other.previous()
        &&& self.pending().base() == other.pending().base()
        &&& self.pending().queues() == other.pending().queues()
    }

    /// The effect of a message of the current round, given the coin the
    /// round draws if it draws one.
    pub open spec fn current_round_effect(
        old: &Self,
        message: PendingMessage,
        coin: Option<bool>,
        r: (AsyncBinaryAgreementResult, Option<AsyncBinaryAgreementMessage>),
        new: &Self,
    ) -> bool {
        let (res, v) = round_step(old.current(), message.header.from, message.message.message_type, coin);
        &&& r.0 == reported(res)
        &&& broadcast_for(res, old.spec_round(), old.key(), r.1)
        &&& new.key() == old.key()
        &&& new.public_keys() == old.public_keys()
        &&& new.input() == old.input()
        &&& new.quorum() == old.quorum()
        &&& new.pending().base() == old.pending().base()
        &&& if res is Failed {
            let e = res->Failed_0;
            &&& new.pending().queues() == old.pending().queues()
            &&& if old.spec_round() < usize::MAX {
                &&& new.spec_round() == old.spec_round() + 1
                &&& new.previous() == old.previous().push(v)
                &&& new.current() == fresh_round(old.quorum().spec_f(), e)
                &&& forall|s: BoolSet| #[trigger] new.current_shares(s) == Seq::<(NodeId, SignatureShare)>::empty()
            } else {
                &&& new.spec_round() == old.spec_round()
                &&& new.previous() == old.previous()
                &&& new.current() == v
                &&& forall|s: BoolSet| #[trigger] new.current_shares(s) == old.shares_after(message, s)
            }
        } else {
            &&& new.spec_round() == old.spec_round()
            &&& new.previous() == old.previous()
            &&& new.current() == v
            &&& forall|s: BoolSet| #[trigger] new.current_shares(s) == old.shares_after(message, s)
            &&& if res is Queue {
                new.pending().queues() == old.pending().queues().insert(
                    old.spec_round() as int,
                    old.pending().queued(old.spec_round() as int).push(message),
                )
            } else {
                new.pending().queues() == old.pending().queues()
            }
        }
    }

    pub fn new(
        input_bit: bool,
        quorum_info: QuorumInfo,
        public_key_set: PublicKeySet,
        threshold_key: SecretKeyShare,
    ) -> (r: Self)
        requires
            quorum_info.wf(),
        ensures
            r.wf(),
            r.spec_round() == 0,
            r.input() == input_bit,
            r.key() == threshold_key,
            r.public_keys() == public_key_set,
            forall|s: crate::aba_messages::BoolSet| #[trigger] r.current_shares(s) == Seq::<(crate::node::NodeId, threshold_crypto::SignatureShare)>::empty(),
            r.quorum() == quorum_info,
            r.current() == fresh_round(quorum_info.spec_f(), input_bit),
            r.previous() == Seq::<RoundView>::empty(),
            r.pending().base() == 0,
            forall|q: int| #[trigger] r.pending().queued(q) == Seq::<PendingMessage>::empty(),
    {
        let f = quorum_info.f();
        let current_round = RoundData::new(f, public_key_set.clone(), input_bit);
        let r = AsyncBinaryAgreement {
            round: 0,
            input_bit,
            quorum_info,
            current_round,
            previous_rounds: Vec::new(),
            pending_messages: PendingMessages::new(0),
            public_keys: public_key_set,
            key_share: threshold_key,
        };
        assert(r.previous() =~= Seq::<RoundView>::empty());
        r
    }

    pub fn round(&self) -> (r: usize)
        ensures
            r == self.spec_round(),
    {
        self.round
    }

    pub fn current_round(&self) -> (r: &RoundData)
        ensures
            r@ == self.current(),
    {
        &self.current_round
    }

    /// `r` is what polling `old` hands out, and `new` the state after.
    pub open spec fn polls(old: &Self, r: Option<PendingMessage>, new: &Self) -> bool {
        let round = old.spec_round() as int;
        &&& new.key() == old.key()
        &&& new.public_keys() == old.public_keys()
        &&& new.same_shares(old)
        &&& new.spec_round() == old.spec_round()
        &&& new.input() == old.input()
        &&& new.quorum() == old.quorum()
        &&& new.current() == old.current()
        &&& new.previous() == old.previous()
        &&& new.pending().base() == old.spec_round()
        &&& forall|q: int| q > round ==> #[trigger] new.pending().queued(q) == old.pending().queued(q)
        &&& old.pending().queued(round).len() == 0 ==> r is None && new.pending().queued(round) == old.pending().queued(round)
        &&& old.pending().queued(round).len() > 0 ==> r == Some(old.pending().queued(round)[0])
            && new.pending().queued(round) == old.pending().queued(round).drop_first()
        &&& r matches Some(m) ==> m.message.round == old.spec_round()
    }

    /// The oldest message held back for the current round, if any.
    pub fn poll(&mut self) -> (r: Option<PendingMessage>)
        requires
            old(self).wf(),
        ensures
            final(self).wf(),
            Self::polls(old(self), r, final(self)),
    {
        self.pending_messages.pop_message(self.round)
    }

    /// The effect of processing `message` in state `old`, giving `r` and
    /// state `new`.
    pub open spec fn processes(
        old: &Self,
        message: PendingMessage,
        r: (AsyncBinaryAgreementResult, Option<AsyncBinaryAgreementMessage>),
        new: &Self,
    ) -> bool {
        &&& (message.message.round > old.spec_round() ==> {
                &&& r == (AsyncBinaryAgreementResult::MessageQueued, None::<AsyncBinaryAgreementMessage>)
                &&& new.key() == old.key()
                &&& new.public_keys() == old.public_keys()
                &&& new.same_shares(old)
                &&& new.spec_round() == old.spec_round()
                &&& new.input() == old.input()
                &&& new.quorum() == old.quorum()
                &&& new.current() == old.current()
                &&& new.previous() == old.previous()
                &&& new.pending().base() == old.pending().base()
                &&& new.pending().queues() == old.pending().queues().insert(
                    message.message.round as int,
                    old.pending().queued(message.message.round as int).push(message),
                )
            })
        &&& (message.message.round < old.spec_round() ==> {
                &&& r == (AsyncBinaryAgreementResult::MessageIgnored, None::<AsyncBinaryAgreementMessage>)
                &&& new.same_state(old)
            })
        &&& (message.message.round == old.spec_round() ==> Self::current_round_effect(
                old,
                message,
                old.drawn_coin(message),
                r,
                new,
            ))
    }

    /// Handles one message; returns the outcome and the message to broadcast
    /// to every member, if any.
    ///
    /// A message of a later round is held back for `poll`, one of an earlier
    /// round is ignored. One of the current round goes to the round's rules
    /// (`round_step`), a confirmation with the coin drawn from the recorded
    /// shares; a failed round opens the next with the estimate it gave, and a
    /// decided one reports `Decided`.
    pub fn process_message(&mut self, message: PendingMessage) -> (r: (
        AsyncBinaryAgreementResult,
        Option<AsyncBinaryAgreementMessage>,
    ))
        requires
            old(self).wf(),
        ensures
            final(self).wf(),
            Self::processes(old(self), message, r, final(self)),
    {
        let round = message.message.round;
        if round > self.round {
            let ghost before = self.pending_messages;
            self.pending_messages.add_message(round, message);
            proof {
                Self::lemma_tags_kept(before, self.pending_messages, round, message);
            }
            return (AsyncBinaryAgreementResult::MessageQueued, None);
        } else if round < self.round {
            return (AsyncBinaryAgreementResult::MessageIgnored, None);
        }
        let sender = message.header.from;
        let ghost old_current = self.current_round@;
        let ghost coin = old(self).drawn_coin(message);
        let result = match &message.message.message_type {
            AsyncBinaryAgreementMessageType::Val { estimate } => {
                self.current_round.accept_estimate(sender, *estimate)
            },
            AsyncBinaryAgreementMessageType::Aux { accepted_estimates } => {
                self.current_round.accept_auxiliary(sender, *accepted_estimates)
            },
            AsyncBinaryAgreementMessageType::Conf { feasible_values, partial_signature } => {
                let res = self.current_round.accept_confirmation(
                    sender,
                    *feasible_values,
                    partial_signature.clone(),
                );
                res
            },
            AsyncBinaryAgreementMessageType::Finish { value } => {
                self.current_round.accept_finish(sender, *value)
            },
        };
        assert((result, self.current_round@) == round_step(old_current, sender, message.message.message_type, coin));
        let r = match result {
            RoundDataVoteAcceptResult::Accepted => (AsyncBinaryAgreementResult::Processed, None),
            RoundDataVoteAcceptResult::Failed(next_estimate) => {
                if self.round < usize::MAX {
                    self.advance_round(next_estimate);
                }
                (AsyncBinaryAgreementResult::Processed, None)
            },
            RoundDataVoteAcceptResult::Finalized(value) => (AsyncBinaryAgreementResult::Decided(value), None),
            RoundDataVoteAcceptResult::BroadcastEst(estimate) => {
                let out = AsyncBinaryAgreementMessage::new(
                    AsyncBinaryAgreementMessageType::Val { estimate },
                    self.round,
                );
                (AsyncBinaryAgreementResult::Processed, Some(out))
            },
            RoundDataVoteAcceptResult::BroadcastAux(accepted_estimates) => {
                let out = AsyncBinaryAgreementMessage::new(
                    AsyncBinaryAgreementMessageType::Aux { accepted_estimates },
                    self.round,
                );
                (AsyncBinaryAgreementResult::Processed, Some(out))
            },
            RoundDataVoteAcceptResult::BroadcastConf(feasible_values) => {
                let partial_signature = self.calculate_threshold_signature_for_round(self.round);
                let out = AsyncBinaryAgreementMessage::new(
                    AsyncBinaryAgreementMessageType::Conf { feasible_values, partial_signature },
                    self.round,
                );
                (AsyncBinaryAgreementResult::Processed, Some(out))
            },
            RoundDataVoteAcceptResult::BroadcastFinalized(value) => {
                let out = AsyncBinaryAgreementMessage::new(
                    AsyncBinaryAgreementMessageType::Finish { value },
                    self.round,
                );
                (AsyncBinaryAgreementResult::Processed, Some(out))
            },
            RoundDataVoteAcceptResult::Queue => {
                let ghost before = self.pending_messages;
                self.pending_messages.add_message(self.round, message);
                proof {
                    Self::lemma_tags_kept(before, self.pending_messages, self.round, message);
                }
                (AsyncBinaryAgreementResult::MessageQueued, None)
            },
            RoundDataVoteAcceptResult::Ignored | RoundDataVoteAcceptResult::AlreadyAccepted => {
                (AsyncBinaryAgreementResult::MessageIgnored, None)
            },
        };
        assert(Self::current_round_effect(old(self), message, coin, r, self));
        r
    }

    /// Our share of the common coin of `round`: our signature share over the
    /// round's coin message.
    fn calculate_threshold_signature_for_round(&self, round: usize) -> (r: threshold_crypto::SignatureShare)
        ensures
            r == share_of(self.key(), le_bytes(round as u64)),
    {
        sign_share(&self.key_share, &coin_message(round as u64))
    }

    /// Appending a message of round `round` to that round's queue keeps every
    /// queued message in the queue of its own round.
    proof fn lemma_tags_kept(old: PendingMessages, new: PendingMessages, round: usize, message: PendingMessage)
        requires
            forall|q: int, i: int| 0 <= i < old.queued(q).len() ==> (#[trigger] old.queued(q)[i]).message.round == q,
            message.message.round == round,
            new.queues() == old.queues().insert(round as int, old.queued(round as int).push(message)),
        ensures
            forall|q: int, i: int| 0 <= i < new.queued(q).len() ==> (#[trigger] new.queued(q)[i]).message.round == q,
    {
        assert forall|q: int, i: int| 0 <= i < new.queued(q).len() implies (#[trigger] new.queued(q)[i]).message.round == q by {
            assert(new.queues()[q] == new.queued(q));
            assert(old.queues()[q] == old.queued(q));
            if q == round as int && i == old.queued(q).len() {
                assert(new.queued(q)[i] == message);
            } else if q == round as int {
                assert(new.queued(q)[i] == old.queued(q)[i]);
            }
        }
    }

    /// `new` is `old` with the current round closed and the next one opened
    /// with `next_estimate`.
    pub open spec fn advances(old: &Self, next_estimate: bool, new: &Self) -> bool {
        &&& new.key() == old.key()
        &&& new.public_keys() == old.public_keys()
        &&& new.spec_round() == old.spec_round() + 1
        &&& new.input() == old.input()
        &&& new.quorum() == old.quorum()
        &&& new.previous() == old.previous().push(old.current())
        &&& new.current() == fresh_round(old.quorum().spec_f(), next_estimate)
        &&& forall|s: BoolSet| #[trigger] new.current_shares(s) == Seq::<(NodeId, SignatureShare)>::empty()
        &&& new.pending().base() == old.pending().base()
        &&& new.pending().queues() == old.pending().queues()
    }

    /// Closes the current round and opens the next with `next_estimate`.
    pub fn advance_round(&mut self, next_estimate: bool)
        requires
            old(self).wf(),
            old(self).spec_round() < usize::MAX,
        ensures
            final(self).wf(),
            Self::advances(old(self), next_estimate, final(self)),
    {
        let f = self.quorum_info.f();
        let mut round_data = RoundData::new(f, self.public_keys.clone(), next_estimate);
        std::mem::swap(&mut self.current_round, &mut round_data);
        self.previous_rounds.push(round_data);
        self.round = self.round + 1;
        assert(self.previous() =~= old(self).previous().push(old(self).current()));
    }
}

} // verus!
