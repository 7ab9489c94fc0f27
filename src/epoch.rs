use vstd::prelude::*;
use threshold_crypto::{PublicKeySet, SecretKeyShare};
use crate::aba::{AsyncBinaryAgreement, AsyncBinaryAgreementResult};
use crate::committee_election::{CommitteeElectionProtocol, CommitteeElectionResult};
use crate::message::{DumboMessageType, EpochMessageType};
use crate::node::{NodeId, StoredMessage};
use crate::node_states::{
    CommitteeNodeExecuting, CommitteeNodeState, CommitteeState, IndexType, LocalDumboState,
    NodeState, NonCommitteeNodeExec, NonCommitteeNodeState,
};
use crate::quorum_info::QuorumInfo;
use crate::reliable_broadcast::{ReliableBroadcastInstance, ReliableBroadcastMessage, ReliableBroadcastResult};
use crate::aba_messages::AsyncBinaryAgreementMessage;

verus! {

/// What processing one message did to an epoch.
#[derive(Clone, Copy, Debug, PartialEq, Eq, Structural)]
pub enum EpochResult {
    MessageIgnored,
    MessageQueued,
    MessageProcessed,
    /// Every committee member's agreement has decided.
    Finalized,
}

#[derive(Clone, Copy, Debug, PartialEq, Eq, Structural)]
pub enum EpochError {
    /// The committee is not known yet.
    CommitteeNotCompleted,
    /// The committee election decided but gave no committee.
    CommitteeElectionFailed,
}

/// How a broadcast outcome is reported by the epoch.
pub open spec fn rbc_reported(r: ReliableBroadcastResult) -> EpochResult {
    match r {
        ReliableBroadcastResult::MessageQueued => EpochResult::MessageQueued,
        ReliableBroadcastResult::MessageIgnored => EpochResult::MessageIgnored,
        _ => EpochResult::MessageProcessed,
    }
}

/// How an agreement outcome is reported by the epoch.
pub open spec fn aba_reported(r: AsyncBinaryAgreementResult) -> EpochResult {
    match r {
        AsyncBinaryAgreementResult::MessageQueued => EpochResult::MessageQueued,
        AsyncBinaryAgreementResult::MessageIgnored => EpochResult::MessageIgnored,
        _ => EpochResult::MessageProcessed,
    }
}

/// The execution machine, value slot and agreement outcome of one node.
pub struct NodeSlot<RQ> {
    owner: NodeId,
    state: NodeState<RQ>,
    decision: Option<bool>,
}

impl<RQ> NodeSlot<RQ> {
    pub closed spec fn spec_owner(&self) -> NodeId {
        self.owner
    }

    pub closed spec fn is_committee(&self) -> bool {
        self.state is CommitteeNode
    }

    /// The delivered value, once the owner's value broadcast has completed.
    pub closed spec fn value(&self) -> Option<Seq<RQ>> {
        match self.state {
            NodeState::CommitteeNode(_, s) => match s {
                CommitteeNodeState::Empty => None,
                CommitteeNodeState::ValueRBC { value } => Some(value@),
                CommitteeNodeState::IndexRBC { value, .. } => Some(value@),
                CommitteeNodeState::ABA { value, .. } => Some(value@),
            },
            NodeState::NonCommitteeNode(_, s) => match s {
                NonCommitteeNodeState::Empty => None,
                NonCommitteeNodeState::ValueRBC { value } => Some(value@),
            },
        }
    }

    /// The value broadcast the slot runs, if it runs one.
    pub closed spec fn value_rbc(&self) -> Option<ReliableBroadcastInstance<Vec<RQ>>> {
        match self.state {
            NodeState::CommitteeNode(CommitteeNodeExecuting::RunningValueRBC(rbc), _) => Some(rbc),
            NodeState::NonCommitteeNode(NonCommitteeNodeExec::RunningValueRBC(rbc), _) => Some(rbc),
            _ => None,
        }
    }

    /// The agreement the slot runs, if it runs one.
    pub closed spec fn aba(&self) -> Option<AsyncBinaryAgreement> {
        match self.state {
            NodeState::CommitteeNode(CommitteeNodeExecuting::RunningABA(aba), _) => Some(aba),
            _ => None,
        }
    }

    /// `rbc` gives `rr` and becomes `rbc2` on `message`.
    pub open spec fn rbc_outcome(
        rbc: ReliableBroadcastInstance<Vec<RQ>>,
        message: StoredMessage<crate::reliable_broadcast::ReliableBroadcastMessage<Vec<RQ>>>,
        rr: (ReliableBroadcastResult, Option<crate::reliable_broadcast::ReliableBroadcastMessage<Vec<RQ>>>),
        rbc2: ReliableBroadcastInstance<Vec<RQ>>,
    ) -> bool {
        ReliableBroadcastInstance::processes(&rbc, message, rr, &rbc2)
    }

    /// `aba` gives `rr` and becomes `aba2` on `message`.
    pub open spec fn aba_outcome(
        aba: AsyncBinaryAgreement,
        message: StoredMessage<crate::aba_messages::AsyncBinaryAgreementMessage>,
        rr: (AsyncBinaryAgreementResult, Option<crate::aba_messages::AsyncBinaryAgreementMessage>),
        aba2: AsyncBinaryAgreement,
    ) -> bool {
        AsyncBinaryAgreement::processes(&aba, message, rr, &aba2)
    }

    /// Handing `message` to the slot's value broadcast: the broadcast steps as
    /// its own contract says; once it completes, its proposal's payload is
    /// the slot's value and the broadcast is gone.
    pub open spec fn value_rbc_step(
        old: &Self,
        message: StoredMessage<crate::reliable_broadcast::ReliableBroadcastMessage<Vec<RQ>>>,
        r: (EpochResult, Option<crate::reliable_broadcast::ReliableBroadcastMessage<Vec<RQ>>>),
        new: &Self,
    ) -> bool {
        &&& old.value_rbc() is None ==> {
            &&& r.0 == EpochResult::MessageIgnored
            &&& r.1 is None
            &&& new.value() == old.value()
        }
        &&& old.value_rbc() is Some ==> exists|
            rr: (ReliableBroadcastResult, Option<crate::reliable_broadcast::ReliableBroadcastMessage<Vec<RQ>>>),
            rbc2: ReliableBroadcastInstance<Vec<RQ>>,
        | {
            &&& #[trigger] Self::rbc_outcome(old.value_rbc().unwrap(), message, rr, rbc2)
            &&& r.1 == rr.1
            &&& if rr.0 == ReliableBroadcastResult::Finalized {
                &&& r.0 == EpochResult::MessageProcessed
                &&& new.value() == Some(rbc2.proposal().unwrap().0@)
                &&& new.value_rbc() is None
                &&& new.index_rbc() is None
                &&& new.aba() is None
                &&& new.is_committee() ==> new.ready_for_index()
            } else {
                &&& r.0 == rbc_reported(rr.0)
                &&& new.value_rbc() == Some(rbc2)
                &&& new.value() == old.value()
            }
        }
    }

    /// Handing `message` to the slot's agreement: the agreement steps as its
    /// own contract says; when it decides, the decision is recorded and the
    /// agreement is gone.
    pub open spec fn aba_step(
        old: &Self,
        message: StoredMessage<crate::aba_messages::AsyncBinaryAgreementMessage>,
        r: (EpochResult, Option<crate::aba_messages::AsyncBinaryAgreementMessage>),
        new: &Self,
    ) -> bool {
        &&& old.aba() is None ==> {
            &&& r.0 == EpochResult::MessageIgnored
            &&& r.1 is None
            &&& new.decision() == old.decision()
        }
        &&& old.aba() is Some ==> exists|
            rr: (AsyncBinaryAgreementResult, Option<crate::aba_messages::AsyncBinaryAgreementMessage>),
            aba2: AsyncBinaryAgreement,
        | {
            &&& #[trigger] Self::aba_outcome(old.aba().unwrap(), message, rr, aba2)
            &&& r.1 == rr.1
            &&& if rr.0 is Decided {
                &&& r.0 == EpochResult::MessageProcessed
                &&& new.decision() == Some(rr.0->Decided_0)
                &&& new.aba() is None
            } else {
                &&& r.0 == aba_reported(rr.0)
                &&& new.aba() == Some(aba2)
                &&& new.decision() == old.decision()
            }
        }
    }

    /// The index broadcast the slot runs, if it runs one.
    pub closed spec fn index_rbc(&self) -> Option<ReliableBroadcastInstance<IndexType>> {
        match self.state {
            NodeState::CommitteeNode(CommitteeNodeExecuting::RunningIndexRBC(rbc), _) => Some(rbc),
            _ => None,
        }
    }

    /// The delivered index, once the owner's index broadcast has completed.
    pub closed spec fn index(&self) -> Option<IndexType> {
        match self.state {
            NodeState::CommitteeNode(_, CommitteeNodeState::IndexRBC { index, .. }) => Some(index),
            NodeState::CommitteeNode(_, CommitteeNodeState::ABA { index, .. }) => Some(index),
            _ => None,
        }
    }

    /// A committee member's slot that holds its value and runs nothing.
    pub closed spec fn ready_for_index(&self) -> bool {
        self.state matches NodeState::CommitteeNode(CommitteeNodeExecuting::WaitingForRBCs, CommitteeNodeState::ValueRBC { .. })
    }

    /// A slot as a committee is installed: nothing obtained, nothing decided,
    /// and a value broadcast from the owner in `Init`.
    pub open spec fn fresh(&self) -> bool {
        &&& self.value() is None
        &&& self.decision() is None
        &&& self.index() is None
        &&& self.aba() is None
        &&& self.value_rbc() matches Some(rbc) && rbc.phase() == crate::reliable_broadcast::ReliableBroadcastState::Init
            && rbc.spec_sender() == self.spec_owner() && rbc.proposal() is None
    }

    /// Handing `message` to the slot's index broadcast: the broadcast steps
    /// as its own contract says; once it completes, its proposal is the
    /// slot's index when the slot holds a value without one, and the
    /// broadcast is gone.
    pub open spec fn index_rbc_step(
        old: &Self,
        message: StoredMessage<ReliableBroadcastMessage<IndexType>>,
        r: (EpochResult, Option<ReliableBroadcastMessage<IndexType>>),
        new: &Self,
    ) -> bool {
        &&& old.index_rbc() is None ==> r == (EpochResult::MessageIgnored, None::<ReliableBroadcastMessage<IndexType>>) && *new == *old
        &&& old.index_rbc() is Some ==> exists|
            rr: (ReliableBroadcastResult, Option<ReliableBroadcastMessage<IndexType>>),
            rbc2: ReliableBroadcastInstance<IndexType>,
        | {
            &&& #[trigger] Self::index_outcome(old.index_rbc().unwrap(), message, rr, rbc2)
            &&& r.1 == rr.1
            &&& new.value() == old.value()
            &&& if rr.0 == ReliableBroadcastResult::Finalized {
                &&& r.0 == EpochResult::MessageProcessed
                &&& new.index_rbc() is None
                &&& new.index() == if old.index() is None && old.value() is Some {
                    Some(rbc2.proposal().unwrap().0)
                } else {
                    old.index()
                }
            } else {
                &&& r.0 == rbc_reported(rr.0)
                &&& new.index_rbc() == Some(rbc2)
                &&& new.index() == old.index()
            }
        }
    }

    /// `rbc` gives `rr` and becomes `rbc2` on `message`.
    pub open spec fn index_outcome(
        rbc: ReliableBroadcastInstance<IndexType>,
        message: StoredMessage<ReliableBroadcastMessage<IndexType>>,
        rr: (ReliableBroadcastResult, Option<ReliableBroadcastMessage<IndexType>>),
        rbc2: ReliableBroadcastInstance<IndexType>,
    ) -> bool {
        ReliableBroadcastInstance::processes(&rbc, message, rr, &rbc2)
    }

    /// The decision of the owner's agreement, once it has decided.
    pub closed spec fn decision(&self) -> Option<bool> {
        self.decision
    }

    pub closed spec fn wf(&self) -> bool {
        match self.state {
            NodeState::CommitteeNode(e, s) => {
                &&& (self.decision is Some <==> e is Done)
                &&& match e {
                    CommitteeNodeExecuting::RunningValueRBC(rbc) => rbc.wf() && s is Empty,
                    CommitteeNodeExecuting::RunningIndexRBC(rbc) => rbc.wf(),
                    CommitteeNodeExecuting::RunningABA(aba) => aba.wf(),
                    _ => true,
                }
            },
            NodeState::NonCommitteeNode(e, s) => {
                &&& self.decision is None
                &&& match e {
                    NonCommitteeNodeExec::RunningValueRBC(rbc) => rbc.wf() && s is Empty,
                    _ => true,
                }
            },
        }
    }

    /// The slot is kept: same owner and kind, and what it had obtained it
    /// still has.
    pub open spec fn keeps(&self, old: &Self) -> bool {
        &&& self.spec_owner() == old.spec_owner()
        &&& self.is_committee() == old.is_committee()
        &&& old.value() is Some ==> self.value() == old.value()
        &&& old.decision() is Some ==> self.decision() == old.decision()
    }

    pub fn owner(&self) -> (r: NodeId)
        ensures
            r == self.spec_owner(),
    {
        self.owner
    }

    fn has_value(&self) -> (r: bool)
        ensures
            r == self.value() is Some,
    {
        match &self.state {
            NodeState::CommitteeNode(_, s) => !matches!(s, CommitteeNodeState::Empty),
            NodeState::NonCommitteeNode(_, s) => matches!(s, NonCommitteeNodeState::ValueRBC { .. }),
        }
    }

    /// Hands a value-broadcast message to the owner's value broadcast, and
    /// stores the value when it completes.
    fn process_value_rbc(
        &mut self,
        message: StoredMessage<crate::reliable_broadcast::ReliableBroadcastMessage<Vec<RQ>>>,
    ) -> (r: (EpochResult, Option<crate::reliable_broadcast::ReliableBroadcastMessage<Vec<RQ>>>))
        requires
            old(self).wf(),
        ensures
            final(self).wf(),
            final(self).keeps(old(self)),
            final(self).decision() == old(self).decision(),
            Self::value_rbc_step(old(self), message, r, final(self)),
            old(self).value_rbc() is None ==> *final(self) == *old(self),
            r.0 == EpochResult::MessageIgnored ==> r.1 is None,
            r.0 != EpochResult::Finalized,
    {
        let mut state = NodeState::NonCommitteeNode(NonCommitteeNodeExec::Completed, NonCommitteeNodeState::Empty);
        std::mem::swap(&mut self.state, &mut state);
        match state {
            NodeState::CommitteeNode(exec, mut slot) => {
                match exec {
                    CommitteeNodeExecuting::RunningValueRBC(mut rbc) => {
                        let ghost rbc0 = rbc;
                        assert(old(self).value_rbc() == Some(rbc0));
                        let (res, out) = rbc.process_message(message);
                        let ghost rbc2 = rbc;
                        assert(Self::rbc_outcome(old(self).value_rbc().unwrap(), message, (res, out), rbc2));
                        let r = match res {
                            ReliableBroadcastResult::Finalized => {
                                assert(rbc2.phase() == crate::reliable_broadcast::ReliableBroadcastState::Ready);
                                match rbc.finalize() {
                                    Ok((value, _)) => slot.received_value(value),
                                    Err(_) => {},
                                }
                                self.state = NodeState::CommitteeNode(CommitteeNodeExecuting::WaitingForRBCs, slot);
                                return (EpochResult::MessageProcessed, out);
                            },
                            ReliableBroadcastResult::MessageQueued => (EpochResult::MessageQueued, out),
                            ReliableBroadcastResult::MessageIgnored => {
                                assert(out is None);
                                (EpochResult::MessageIgnored, None)
                            },
                            ReliableBroadcastResult::Processed => (EpochResult::MessageProcessed, out),
                        };
                        self.state = NodeState::CommitteeNode(CommitteeNodeExecuting::RunningValueRBC(rbc), slot);
                        r
                    },
                    other => {
                        self.state = NodeState::CommitteeNode(other, slot);
                        (EpochResult::MessageIgnored, None)
                    },
                }
            },
            NodeState::NonCommitteeNode(exec, mut slot) => {
                match exec {
                    NonCommitteeNodeExec::RunningValueRBC(mut rbc) => {
                        let ghost rbc0 = rbc;
                        assert(old(self).value_rbc() == Some(rbc0));
                        let (res, out) = rbc.process_message(message);
                        let ghost rbc2 = rbc;
                        assert(Self::rbc_outcome(old(self).value_rbc().unwrap(), message, (res, out), rbc2));
                        let r = match res {
                            ReliableBroadcastResult::Finalized => {
                                assert(rbc2.phase() == crate::reliable_broadcast::ReliableBroadcastState::Ready);
                                match rbc.finalize() {
                                    Ok((value, _)) => slot.received_value(value),
                                    Err(_) => {},
                                }
                                self.state = NodeState::NonCommitteeNode(NonCommitteeNodeExec::Completed, slot);
                                return (EpochResult::MessageProcessed, out);
                            },
                            ReliableBroadcastResult::MessageQueued => (EpochResult::MessageQueued, out),
                            ReliableBroadcastResult::MessageIgnored => {
                                assert(out is None);
                                (EpochResult::MessageIgnored, None)
                            },
                            ReliableBroadcastResult::Processed => (EpochResult::MessageProcessed, out),
                        };
                        self.state = NodeState::NonCommitteeNode(NonCommitteeNodeExec::RunningValueRBC(rbc), slot);
                        r
                    },
                    other => {
                        self.state = NodeState::NonCommitteeNode(other, slot);
                        (EpochResult::MessageIgnored, None)
                    },
                }
            },
        }
    }

    /// Hands an index-broadcast message to the owner's index broadcast, and
    /// stores the index next to the value when it completes.
    fn process_index_rbc(
        &mut self,
        message: StoredMessage<crate::reliable_broadcast::ReliableBroadcastMessage<IndexType>>,
    ) -> (r: (EpochResult, Option<crate::reliable_broadcast::ReliableBroadcastMessage<IndexType>>))
        requires
            old(self).wf(),
        ensures
            final(self).wf(),
            final(self).keeps(old(self)),
            final(self).decision() == old(self).decision(),
            r.0 == EpochResult::MessageIgnored ==> r.1 is None,
            r.0 != EpochResult::Finalized,
            Self::index_rbc_step(old(self), message, r, final(self)),
    {
        let mut state = NodeState::NonCommitteeNode(NonCommitteeNodeExec::Completed, NonCommitteeNodeState::Empty);
        std::mem::swap(&mut self.state, &mut state);
        match state {
            NodeState::CommitteeNode(CommitteeNodeExecuting::RunningIndexRBC(mut rbc), mut slot) => {
                assert(old(self).index_rbc() == Some(rbc));
                let (res, out) = rbc.process_message(message);
                let ghost rbc2 = rbc;
                assert(Self::index_outcome(old(self).index_rbc().unwrap(), message, (res, out), rbc2));
                let r = match res {
                    ReliableBroadcastResult::Finalized => {
                        assert(rbc2.phase() == crate::reliable_broadcast::ReliableBroadcastState::Ready);
                        match rbc.finalize() {
                            Ok((index, _)) => {
                                if matches!(slot, CommitteeNodeState::ValueRBC { .. }) {
                                    slot.received_index(index);
                                }
                            },
                            Err(_) => {},
                        }
                        self.state = NodeState::CommitteeNode(CommitteeNodeExecuting::WaitingForRBCs, slot);
                        return (EpochResult::MessageProcessed, out);
                    },
                    ReliableBroadcastResult::MessageQueued => (EpochResult::MessageQueued, out),
                    ReliableBroadcastResult::MessageIgnored => {
                        assert(out is None);
                        (EpochResult::MessageIgnored, None)
                    },
                    ReliableBroadcastResult::Processed => (EpochResult::MessageProcessed, out),
                };
                self.state = NodeState::CommitteeNode(CommitteeNodeExecuting::RunningIndexRBC(rbc), slot);
                r
            },
            other => {
                self.state = other;
                (EpochResult::MessageIgnored, None)
            },
        }
    }

    /// Hands an agreement message to the owner's agreement, and records its
    /// decision.
    fn process_aba(
        &mut self,
        message: StoredMessage<crate::aba_messages::AsyncBinaryAgreementMessage>,
    ) -> (r: (EpochResult, Option<crate::aba_messages::AsyncBinaryAgreementMessage>))
        requires
            old(self).wf(),
        ensures
            final(self).wf(),
            final(self).keeps(old(self)),
            Self::aba_step(old(self), message, r, final(self)),
            old(self).aba() is None ==> *final(self) == *old(self),
            r.0 == EpochResult::MessageIgnored ==> r.1 is None,
            r.0 != EpochResult::Finalized,
            !old(self).is_committee() ==> r.0 == EpochResult::MessageIgnored,
            old(self).decision() is None && final(self).decision() is Some ==> r.0
                == EpochResult::MessageProcessed,
    {
        let mut state = NodeState::NonCommitteeNode(NonCommitteeNodeExec::Completed, NonCommitteeNodeState::Empty);
        std::mem::swap(&mut self.state, &mut state);
        match state {
            NodeState::CommitteeNode(CommitteeNodeExecuting::RunningABA(mut aba), mut slot) => {
                let ghost aba0 = aba;
                assert(old(self).aba() == Some(aba0));
                let (res, out) = aba.process_message(message);
                let ghost aba2 = aba;
                assert(Self::aba_outcome(old(self).aba().unwrap(), message, (res, out), aba2));
                let r = match res {
                    AsyncBinaryAgreementResult::Decided(value) => {
                        if matches!(slot, CommitteeNodeState::IndexRBC { .. }) {
                            slot.received_decision(value);
                        }
                        self.decision = Some(value);
                        self.state = NodeState::CommitteeNode(CommitteeNodeExecuting::Done, slot);
                        return (EpochResult::MessageProcessed, out);
                    },
                    AsyncBinaryAgreementResult::MessageQueued => (EpochResult::MessageQueued, out),
                    AsyncBinaryAgreementResult::MessageIgnored => {
                        assert(out is None);
                        (EpochResult::MessageIgnored, None)
                    },
                    AsyncBinaryAgreementResult::Processed => (EpochResult::MessageProcessed, out),
                };
                self.state = NodeState::CommitteeNode(CommitteeNodeExecuting::RunningABA(aba), slot);
                r
            },
            other => {
                self.state = other;
                (EpochResult::MessageIgnored, None)
            },
        }
    }

    /// Starts the index broadcast of a committee member whose value has been
    /// delivered and that runs nothing else; returns whether it started.
    fn begin_index_phase(&mut self, quorum_info: QuorumInfo) -> (r: bool)
        requires
            old(self).wf(),
            quorum_info.wf(),
        ensures
            final(self).wf(),
            final(self).keeps(old(self)),
            final(self).decision() == old(self).decision(),
            r == old(self).ready_for_index(),
            !r ==> *final(self) == *old(self),
            r ==> {
                &&& final(self).value() == old(self).value()
                &&& final(self).index() is None
                &&& final(self).index_rbc() matches Some(rbc) && rbc.phase()
                    == crate::reliable_broadcast::ReliableBroadcastState::Init && rbc.spec_sender()
                    == old(self).spec_owner() && rbc.proposal() is None && rbc.quorum() == quorum_info
            },
    {
        let mut state = NodeState::NonCommitteeNode(NonCommitteeNodeExec::Completed, NonCommitteeNodeState::Empty);
        std::mem::swap(&mut self.state, &mut state);
        match state {
            NodeState::CommitteeNode(CommitteeNodeExecuting::WaitingForRBCs, slot) => {
                if matches!(slot, CommitteeNodeState::ValueRBC { .. }) {
                    let rbc = ReliableBroadcastInstance::new(self.owner, quorum_info);
                    self.state = NodeState::CommitteeNode(CommitteeNodeExecuting::RunningIndexRBC(rbc), slot);
                    true
                } else {
                    self.state = NodeState::CommitteeNode(CommitteeNodeExecuting::WaitingForRBCs, slot);
                    false
                }
            },
            other => {
                self.state = other;
                false
            },
        }
    }

    /// Starts the agreement of a committee member's slot with `input_bit`,
    /// unless it runs or has finished one; returns whether it started.
    fn start_aba(
        &mut self,
        input_bit: bool,
        quorum_info: QuorumInfo,
        public_keys: PublicKeySet,
        key_share: SecretKeyShare,
    ) -> (r: bool)
        requires
            old(self).wf(),
            quorum_info.wf(),
        ensures
            final(self).wf(),
            final(self).keeps(old(self)),
            final(self).decision() == old(self).decision(),
            r == (old(self).is_committee() && old(self).aba() is None && old(self).decision() is None),
            !r ==> *final(self) == *old(self),
            r ==> {
                &&& final(self).value() == old(self).value()
                &&& final(self).aba() matches Some(a) && a.input() == input_bit && a.spec_round() == 0
                    && a.key() == key_share && a.quorum() == quorum_info && a.current() == crate::aba_round::fresh_round(
                    quorum_info.spec_f(),
                    input_bit,
                )
            },
    {
        let mut state = NodeState::NonCommitteeNode(NonCommitteeNodeExec::Completed, NonCommitteeNodeState::Empty);
        std::mem::swap(&mut self.state, &mut state);
        match state {
            NodeState::CommitteeNode(exec, slot) => {
                match exec {
                    CommitteeNodeExecuting::RunningABA(aba) => {
                        self.state = NodeState::CommitteeNode(CommitteeNodeExecuting::RunningABA(aba), slot);
                        false
                    },
                    CommitteeNodeExecuting::Done => {
                        self.state = NodeState::CommitteeNode(CommitteeNodeExecuting::Done, slot);
                        false
                    },
                    _ => {
                        let aba = AsyncBinaryAgreement::new(input_bit, quorum_info, public_keys, key_share);
                        self.state = NodeState::CommitteeNode(CommitteeNodeExecuting::RunningABA(aba), slot);
                        true
                    },
                }
            },
            other => {
                self.state = other;
                false
            },
        }
    }

    /// `rbc` hands out `pr` on a poll and becomes `rbc2`.
    pub open spec fn value_poll_outcome(
        rbc: ReliableBroadcastInstance<Vec<RQ>>,
        pr: Option<StoredMessage<ReliableBroadcastMessage<Vec<RQ>>>>,
        rbc2: ReliableBroadcastInstance<Vec<RQ>>,
    ) -> bool {
        ReliableBroadcastInstance::polls(&rbc, pr, &rbc2)
    }

    /// `rbc` hands out `pr` on a poll and becomes `rbc2`.
    pub open spec fn index_poll_outcome(
        rbc: ReliableBroadcastInstance<IndexType>,
        pr: Option<StoredMessage<ReliableBroadcastMessage<IndexType>>>,
        rbc2: ReliableBroadcastInstance<IndexType>,
    ) -> bool {
        ReliableBroadcastInstance::polls(&rbc, pr, &rbc2)
    }

    /// `aba` hands out `pr` on a poll and becomes `aba2`.
    pub open spec fn aba_poll_outcome(
        aba: AsyncBinaryAgreement,
        pr: Option<StoredMessage<AsyncBinaryAgreementMessage>>,
        aba2: AsyncBinaryAgreement,
    ) -> bool {
        AsyncBinaryAgreement::polls(&aba, pr, &aba2)
    }

    /// Polling the slot: the instance it runs is polled as its own contract
    /// says, and what it hands out comes back tagged with the owner; a slot
    /// that runs nothing hands out nothing and is unchanged.
    pub open spec fn poll_step<CEM>(
        old: &Self,
        r: Option<StoredMessage<EpochMessageType<RQ, CEM>>>,
        new: &Self,
    ) -> bool {
        &&& new.spec_owner() == old.spec_owner()
        &&& new.value() == old.value()
        &&& new.index() == old.index()
        &&& new.decision() == old.decision()
        &&& if old.value_rbc() is Some {
            exists|pr: Option<StoredMessage<ReliableBroadcastMessage<Vec<RQ>>>>, rbc2: ReliableBroadcastInstance<Vec<RQ>>| {
                &&& #[trigger] Self::value_poll_outcome(old.value_rbc().unwrap(), pr, rbc2)
                &&& new.value_rbc() == Some(rbc2)
                &&& r == match pr {
                    Some(m) => Some(StoredMessage::<EpochMessageType<RQ, CEM>> { header: m.header, message: DumboMessageType::ReliableBroadcast(old.spec_owner(), m.message) }),
                    None => None,
                }
            }
        } else if old.index_rbc() is Some {
            exists|pr: Option<StoredMessage<ReliableBroadcastMessage<IndexType>>>, rbc2: ReliableBroadcastInstance<IndexType>| {
                &&& #[trigger] Self::index_poll_outcome(old.index_rbc().unwrap(), pr, rbc2)
                &&& new.index_rbc() == Some(rbc2)
                &&& r == match pr {
                    Some(m) => Some(StoredMessage::<EpochMessageType<RQ, CEM>> { header: m.header, message: DumboMessageType::IndexReliableBroadcast(old.spec_owner(), m.message) }),
                    None => None,
                }
            }
        } else if old.aba() is Some {
            exists|pr: Option<StoredMessage<AsyncBinaryAgreementMessage>>, aba2: AsyncBinaryAgreement| {
                &&& #[trigger] Self::aba_poll_outcome(old.aba().unwrap(), pr, aba2)
                &&& new.aba() == Some(aba2)
                &&& r == match pr {
                    Some(m) => Some(StoredMessage::<EpochMessageType<RQ, CEM>> { header: m.header, message: DumboMessageType::AsyncBinaryAgreement(old.spec_owner(), m.message) }),
                    None => None,
                }
            }
        } else {
            &&& r is None
            &&& *new == *old
        }
    }

    /// A held-back message of the instance this slot runs that it can now
    /// take, if any.
    fn poll<CEM>(&mut self) -> (r: Option<StoredMessage<EpochMessageType<RQ, CEM>>>)
        requires
            old(self).wf(),
        ensures
            final(self).wf(),
            final(self).keeps(old(self)),
            final(self).decision() == old(self).decision(),
            Self::poll_step(old(self), r, final(self)),
    {
        let owner = self.owner;
        let mut state = NodeState::NonCommitteeNode(NonCommitteeNodeExec::Completed, NonCommitteeNodeState::Empty);
        std::mem::swap(&mut self.state, &mut state);
        match state {
            NodeState::CommitteeNode(CommitteeNodeExecuting::RunningValueRBC(mut rbc), slot) => {
                assert(old(self).value_rbc() == Some(rbc));
                let p = rbc.poll();
                assert(Self::value_poll_outcome(old(self).value_rbc().unwrap(), p, rbc));
                self.state = NodeState::CommitteeNode(CommitteeNodeExecuting::RunningValueRBC(rbc), slot);
                match p {
                    Some(m) => Some(StoredMessage { header: m.header, message: DumboMessageType::ReliableBroadcast(owner, m.message) }),
                    None => None,
                }
            },
            NodeState::NonCommitteeNode(NonCommitteeNodeExec::RunningValueRBC(mut rbc), slot) => {
                assert(old(self).value_rbc() == Some(rbc));
                let p = rbc.poll();
                assert(Self::value_poll_outcome(old(self).value_rbc().unwrap(), p, rbc));
                self.state = NodeState::NonCommitteeNode(NonCommitteeNodeExec::RunningValueRBC(rbc), slot);
                match p {
                    Some(m) => Some(StoredMessage { header: m.header, message: DumboMessageType::ReliableBroadcast(owner, m.message) }),
                    None => None,
                }
            },
            NodeState::CommitteeNode(CommitteeNodeExecuting::RunningIndexRBC(mut rbc), slot) => {
                assert(old(self).index_rbc() == Some(rbc));
                let p = rbc.poll();
                assert(Self::index_poll_outcome(old(self).index_rbc().unwrap(), p, rbc));
                self.state = NodeState::CommitteeNode(CommitteeNodeExecuting::RunningIndexRBC(rbc), slot);
                match p {
                    Some(m) => Some(StoredMessage { header: m.header, message: DumboMessageType::IndexReliableBroadcast(owner, m.message) }),
                    None => None,
                }
            },
            NodeState::CommitteeNode(CommitteeNodeExecuting::RunningABA(mut aba), slot) => {
                assert(old(self).aba() == Some(aba));
                let p = aba.poll();
                assert(Self::aba_poll_outcome(old(self).aba().unwrap(), p, aba));
                self.state = NodeState::CommitteeNode(CommitteeNodeExecuting::RunningABA(aba), slot);
                match p {
                    Some(m) => Some(StoredMessage { header: m.header, message: DumboMessageType::AsyncBinaryAgreement(owner, m.message) }),
                    None => None,
                }
            },
            other => {
                self.state = other;
                None
            },
        }
    }

    /// The value, moved out.
    fn take_value(self) -> (r: Option<Vec<RQ>>)
        ensures
            r is Some <==> self.value() is Some,
            r matches Some(v) ==> self.value() == Some(v@),
    {
        match self.state {
            NodeState::CommitteeNode(_, s) => match s {
                CommitteeNodeState::Empty => None,
                CommitteeNodeState::ValueRBC { value } => Some(value),
                CommitteeNodeState::IndexRBC { value, .. } => Some(value),
                CommitteeNodeState::ABA { value, .. } => Some(value),
            },
            NodeState::NonCommitteeNode(_, s) => match s {
                NonCommitteeNodeState::Empty => None,
                NonCommitteeNodeState::ValueRBC { value } => Some(value),
            },
        }
    }
}

/// Whether `id` occurs in `ids`.
fn contains_node(ids: &Vec<NodeId>, id: NodeId) -> (r: bool)
    ensures
        r == ids@.contains(id),
{
    let mut i: usize = 0;
    while i < ids.len()
        invariant
            0 <= i <= ids.len(),
            forall|j: int| 0 <= j < i ==> ids@[j] != id,
        decreases ids.len() - i,
    {
        if ids[i] == id {
            return true;
        }
        i += 1;
    }
    false
}

/// The payloads of the owners whose agreement decided `true`, in slot order.
pub open spec fn output_of<RQ>(slots: Seq<NodeSlot<RQ>>) -> Seq<RQ>
    decreases slots.len(),
{
    if slots.len() == 0 {
        Seq::empty()
    } else {
        let head = if slots[0].decision() == Some(true) && slots[0].value() is Some {
            slots[0].value().unwrap()
        } else {
            Seq::empty()
        };
        head + output_of(slots.drop_first())
    }
}

/// The number of slots whose value has been delivered.
pub open spec fn delivered_count<RQ>(slots: Seq<NodeSlot<RQ>>) -> nat
    decreases slots.len(),
{
    if slots.len() == 0 {
        0
    } else {
        delivered_count(slots.drop_last()) + if slots.last().value() is Some { 1nat } else { 0nat }
    }
}

/// One epoch: the committee election, a value broadcast per node, and an
/// agreement per committee member on whether to take that member's value.
pub struct DumboRound<CE, RQ> {
    epoch_num: u64,
    node_id: NodeId,
    node_states: Vec<NodeSlot<RQ>>,
    local_state: LocalDumboState,
    committee_election: CommitteeState<CE>,
    quorum_info: QuorumInfo,
}

impl<CE: CommitteeElectionProtocol, RQ> DumboRound<CE, RQ> {
    pub closed spec fn spec_epoch(&self) -> u64 {
        self.epoch_num
    }

    pub closed spec fn self_id(&self) -> NodeId {
        self.node_id
    }

    pub closed spec fn quorum(&self) -> QuorumInfo {
        self.quorum_info
    }

    pub closed spec fn committee(&self) -> Option<Seq<NodeId>> {
        match self.committee_election {
            CommitteeState::Completed { committee } => Some(committee@),
            CommitteeState::RunningCE(_) => None,
        }
    }

    pub closed spec fn slots(&self) -> Seq<NodeSlot<RQ>> {
        self.node_states@
    }

    pub closed spec fn local(&self) -> LocalDumboState {
        self.local_state
    }

    pub closed spec fn wf(&self) -> bool {
        &&& self.quorum_info.wf()
        &&& forall|i: int| 0 <= i < self.slots().len() ==> (#[trigger] self.slots()[i]).wf()
        &&& match self.committee() {
            None => {
                &&& self.slots().len() == 0
                &&& self.local_state == LocalDumboState::WaitingForCommittee
            },
            Some(c) => {
                &&& self.slots().len() == self.quorum_info.spec_members().len()
                &&& forall|i: int| 0 <= i < self.slots().len() ==> {
                    &&& (#[trigger] self.slots()[i]).spec_owner() == self.quorum_info.spec_members()[i]
                    &&& self.slots()[i].is_committee() == c.contains(self.slots()[i].spec_owner())
                }
                &&& self.local_state == if c.contains(self.node_id) {
                    LocalDumboState::CommitteeMember
                } else {
                    LocalDumboState::NonCommitteeMember
                }
            },
        }
    }

    /// Nothing about the epoch has changed.
    pub open spec fn same_epoch(&self, old: &Self) -> bool {
        &&& self.spec_epoch() == old.spec_epoch()
        &&& self.self_id() == old.self_id()
        &&& self.quorum() == old.quorum()
        &&& self.committee() == old.committee()
        &&& self.slots() == old.slots()
        &&& self.local() == old.local()
    }

    /// All slots but the `i`-th are as in `old`.
    pub open spec fn others_unchanged(old: &Self, new: &Self, i: int) -> bool {
        &&& new.slots().len() == old.slots().len()
        &&& forall|j: int| 0 <= j < new.slots().len() && j != i ==> #[trigger] new.slots()[j] == old.slots()[j]
    }

    /// Every committee member's agreement has decided.
    pub open spec fn all_decided(&self) -> bool {
        &&& self.committee() is Some
        &&& forall|i: int| 0 <= i < self.slots().len() && (#[trigger] self.slots()[i]).is_committee()
            ==> self.slots()[i].decision() is Some
    }

    /// All decided, and every value to be output has arrived.
    pub open spec fn output_ready(&self) -> bool {
        &&& self.all_decided()
        &&& forall|i: int| 0 <= i < self.slots().len() && (#[trigger] self.slots()[i]).decision()
            == Some(true) ==> self.slots()[i].value() is Some
    }

    /// The slots are kept, one for one.
    pub open spec fn keeps_slots(&self, old: &Self) -> bool {
        &&& self.slots().len() == old.slots().len()
        &&& forall|i: int| 0 <= i < self.slots().len() ==> (#[trigger] self.slots()[i]).keeps(&old.slots()[i])
    }

    /// A slot is the only one of its owner.
    proof fn lemma_unique_owner(&self, old: &Self, i: int)
        requires
            old.wf(),
            0 <= i < old.slots().len(),
        ensures
            forall|j: int| 0 <= j < old.slots().len() && #[trigger] old.slots()[j].spec_owner() == old.slots()[i].spec_owner() ==> j == i,
    {
        assert forall|j: int| 0 <= j < old.slots().len() && #[trigger] old.slots()[j].spec_owner() == old.slots()[i].spec_owner() implies j == i by {
            assert(old.quorum_info.spec_members()[j] == old.quorum_info.spec_members()[i]);
        }
    }

    pub fn new(epoch_num: u64, node_id: NodeId, quorum_info: QuorumInfo) -> (r: Self)
        requires
            quorum_info.wf(),
        ensures
            r.wf(),
            r.spec_epoch() == epoch_num,
            r.self_id() == node_id,
            r.quorum() == quorum_info,
            r.committee() is None,
    {
        let required_committee = quorum_info.f() + 1;
        let committee_election_protocol = CE::new(&quorum_info, required_committee);
        DumboRound {
            epoch_num,
            node_id,
            node_states: Vec::new(),
            local_state: LocalDumboState::WaitingForCommittee,
            committee_election: CommitteeState::RunningCE(committee_election_protocol),
            quorum_info,
        }
    }

    pub fn epoch(&self) -> (r: u64)
        ensures
            r == self.spec_epoch(),
    {
        self.epoch_num
    }

    pub fn local_state(&self) -> (r: LocalDumboState)
        ensures
            r == self.local(),
    {
        self.local_state
    }

    /// Records the elected committee and opens a slot per member: a value
    /// broadcast for every member, and later an agreement for those in the
    /// committee.
    fn install_committee(&mut self, committee: Vec<NodeId>)
        requires
            old(self).quorum_info.wf(),
        ensures
            final(self).wf(),
            final(self).committee() == Some(committee@),
            final(self).spec_epoch() == old(self).spec_epoch(),
            final(self).self_id() == old(self).self_id(),
            final(self).quorum() == old(self).quorum(),
            forall|i: int| 0 <= i < final(self).slots().len() ==> (#[trigger] final(self).slots()[i]).fresh(),
    {
        let mut slots: Vec<NodeSlot<RQ>> = Vec::new();
        let n = self.quorum_info.quorum_members().len();
        let mut i: usize = 0;
        while i < n
            invariant
                0 <= i <= n,
                n == self.quorum_info.spec_members().len(),
                self.quorum_info.wf(),
                slots@.len() == i,
                forall|j: int| 0 <= j < i ==> {
                    &&& (#[trigger] slots@[j]).wf()
                    &&& slots@[j].spec_owner() == self.quorum_info.spec_members()[j]
                    &&& slots@[j].is_committee() == committee@.contains(slots@[j].spec_owner())
                    &&& slots@[j].fresh()
                },
            decreases n - i,
        {
            let owner = self.quorum_info.quorum_members()[i];
            let rbc = ReliableBroadcastInstance::new(owner, self.quorum_info.duplicate());
            let state = if contains_node(&committee, owner) {
                NodeState::CommitteeNode(CommitteeNodeExecuting::RunningValueRBC(rbc), CommitteeNodeState::Empty)
            } else {
                NodeState::NonCommitteeNode(NonCommitteeNodeExec::RunningValueRBC(rbc), NonCommitteeNodeState::Empty)
            };
            slots.push(NodeSlot { owner, state, decision: None });
            i += 1;
        }
        self.local_state = if contains_node(&committee, self.node_id) {
            LocalDumboState::CommitteeMember
        } else {
            LocalDumboState::NonCommitteeMember
        };
        self.node_states = slots;
        self.committee_election = CommitteeState::Completed { committee };
    }

    /// The position of `owner`'s slot, if it has one.
    fn find_slot(&self, owner: NodeId) -> (r: Option<usize>)
        ensures
            r matches Some(i) ==> i < self.slots().len() && self.slots()[i as int].spec_owner() == owner,
            r is None ==> forall|i: int| 0 <= i < self.slots().len() ==> (#[trigger] self.slots()[i]).spec_owner() != owner,
    {
        let mut i: usize = 0;
        while i < self.node_states.len()
            invariant
                0 <= i <= self.node_states.len(),
                forall|j: int| 0 <= j < i ==> (#[trigger] self.slots()[j]).spec_owner() != owner,
            decreases self.node_states.len() - i,
        {
            if self.node_states[i].owner == owner {
                return Some(i);
            }
            i += 1;
        }
        None
    }

    /// Whether every committee member's agreement has decided.
    pub fn is_finalized(&self) -> (r: bool)
        requires
            self.wf(),
        ensures
            r == self.all_decided(),
    {
        if matches!(self.committee_election, CommitteeState::RunningCE(_)) {
            return false;
        }
        let mut i: usize = 0;
        while i < self.node_states.len()
            invariant
                0 <= i <= self.node_states.len(),
                forall|j: int| 0 <= j < i && (#[trigger] self.slots()[j]).is_committee() ==> self.slots()[j].decision() is Some,
            decreases self.node_states.len() - i,
        {
            let committee_slot = matches!(self.node_states[i].state, NodeState::CommitteeNode(..));
            if committee_slot && self.node_states[i].decision.is_none() {
                return false;
            }
            i += 1;
        }
        true
    }

    /// Whether we are in the committee; refused before it is known.
    pub fn is_part_of_committee(&self) -> (r: Result<bool, EpochError>)
        ensures
            self.committee() is None ==> r == Err::<bool, EpochError>(EpochError::CommitteeNotCompleted),
            self.committee() matches Some(c) ==> r == Ok::<bool, EpochError>(c.contains(self.self_id())),
    {
        match &self.committee_election {
            CommitteeState::Completed { committee } => Ok(contains_node(committee, self.node_id)),
            CommitteeState::RunningCE(_) => Err(EpochError::CommitteeNotCompleted),
        }
    }

    /// The number of nodes whose value broadcast has delivered.
    pub fn completed_rbc_count(&self) -> (r: usize)
        ensures
            r == delivered_count(self.slots()),
    {
        let mut count: usize = 0;
        let mut i: usize = 0;
        while i < self.node_states.len()
            invariant
                0 <= i <= self.node_states.len(),
                count == delivered_count(self.slots().subrange(0, i as int)),
                count <= i,
            decreases self.node_states.len() - i,
        {
            assert(self.slots().subrange(0, i + 1).drop_last() =~= self.slots().subrange(0, i as int));
            if self.node_states[i].has_value() {
                count += 1;
            }
            i += 1;
        }
        assert(self.slots().subrange(0, self.slots().len() as int) =~= self.slots());
        count
    }

    /// Whether we are in the committee and have at least `n - f` delivered
    /// values; refused before the committee is known.
    pub fn check_nodes_ready(&self) -> (r: Result<bool, EpochError>)
        ensures
            self.committee() is None ==> r == Err::<bool, EpochError>(EpochError::CommitteeNotCompleted),
            self.committee() matches Some(c) ==> r == Ok::<bool, EpochError>(
                c.contains(self.self_id()) && delivered_count(self.slots()) >= self.quorum().spec_quorum_size(),
            ),
    {
        match self.is_part_of_committee() {
            Err(e) => Err(e),
            Ok(false) => Ok(false),
            Ok(true) => Ok(self.completed_rbc_count() >= self.quorum_info.quorum_size()),
        }
    }

    /// The epoch's output: the values of the committee members whose
    /// agreement decided `true`, in member order; `None` until every
    /// agreement has decided and those values have arrived.
    pub fn into_output(self) -> (r: Option<Vec<RQ>>)
        requires
            self.wf(),
        ensures
            r is Some <==> self.output_ready(),
            r matches Some(v) ==> v@ == output_of(self.slots()),
    {
        if !self.is_finalized() {
            return None;
        }
        let mut i: usize = 0;
        while i < self.node_states.len()
            invariant
                0 <= i <= self.node_states.len(),
                forall|j: int| 0 <= j < i && (#[trigger] self.slots()[j]).decision() == Some(true)
                    ==> self.slots()[j].value() is Some,
            decreases self.node_states.len() - i,
        {
            if self.node_states[i].decision == Some(true) && !self.node_states[i].has_value() {
                return None;
            }
            i += 1;
        }
        let ghost all = self.slots();
        let mut slots = self.node_states;
        let mut out: Vec<RQ> = Vec::new();
        while slots.len() > 0
            invariant
                out@ + output_of(slots@) == output_of(all),
            decreases slots.len(),
        {
            let ghost before = slots@;
            let slot = slots.remove(0);
            assert(slots@ == before.drop_first());
            let chosen = slot.decision == Some(true);
            let ghost head = if chosen && slot.value() is Some { slot.value().unwrap() } else { Seq::<RQ>::empty() };
            let ghost prev_out = out@;
            if chosen {
                match slot.take_value() {
                    Some(mut v) => out.append(&mut v),
                    None => {},
                }
            }
            assert(out@ =~= prev_out + head);
            assert(prev_out + (head + output_of(slots@)) =~= out@ + output_of(slots@));
        }
        assert(out@ =~= output_of(all));
        Some(out)
    }

    /// How an election's answer (other than a decision) is reported.
    pub open spec fn election_reported(res: CommitteeElectionResult) -> EpochResult {
        match res {
            CommitteeElectionResult::MessageQueued => EpochResult::MessageQueued,
            CommitteeElectionResult::MessageIgnored => EpochResult::MessageIgnored,
            _ => EpochResult::MessageProcessed,
        }
    }

    /// What the epoch does with the election's answer `res` and, on a
    /// decision, the committee `elected` it gave: install it with fresh
    /// slots; fail when there is none; report anything else one for one and
    /// change nothing.
    pub open spec fn election_outcome(
        old: &Self,
        res: CommitteeElectionResult,
        elected: Option<Seq<NodeId>>,
        r: Result<EpochResult, EpochError>,
        new: &Self,
    ) -> bool {
        &&& new.spec_epoch() == old.spec_epoch()
        &&& new.self_id() == old.self_id()
        &&& new.quorum() == old.quorum()
        &&& res == CommitteeElectionResult::Decided && elected is Some ==> {
            &&& r == Ok::<EpochResult, EpochError>(EpochResult::MessageProcessed)
            &&& new.committee() == elected
            &&& new.local() == if elected.unwrap().contains(old.self_id()) {
                LocalDumboState::CommitteeMember
            } else {
                LocalDumboState::NonCommitteeMember
            }
            &&& forall|i: int| 0 <= i < new.slots().len() ==> (#[trigger] new.slots()[i]).fresh()
            &&& new.slots().len() == old.quorum().spec_members().len()
            &&& forall|i: int| 0 <= i < new.slots().len() ==> (#[trigger] new.slots()[i]).spec_owner()
                == old.quorum().spec_members()[i] && new.slots()[i].is_committee() == elected.unwrap().contains(
                new.slots()[i].spec_owner(),
            )
        }
        &&& res == CommitteeElectionResult::Decided && elected is None ==> {
            &&& r == Err::<EpochResult, EpochError>(EpochError::CommitteeElectionFailed)
            &&& new.same_epoch(old)
        }
        &&& res != CommitteeElectionResult::Decided ==> {
            &&& r == Ok::<EpochResult, EpochError>(Self::election_reported(res))
            &&& new.same_epoch(old)
        }
    }

    /// Applies the election's answer while the committee is not known: a
    /// decision with a committee installs it, one without fails, and any other
    /// answer is reported as is.
    pub fn apply_election_outcome(
        &mut self,
        res: CommitteeElectionResult,
        committee: Option<Vec<NodeId>>,
    ) -> (r: Result<EpochResult, EpochError>)
        requires
            old(self).wf(),
            old(self).committee() is None,
        ensures
            final(self).wf(),
            Self::election_outcome(
                old(self),
                res,
                if committee is Some {
                    Some(committee->Some_0@)
                } else {
                    None
                },
                r,
                final(self),
            ),
    {
        match res {
            CommitteeElectionResult::Decided => match committee {
                Some(c) => {
                    self.install_committee(c);
                    Ok(EpochResult::MessageProcessed)
                },
                None => Err(EpochError::CommitteeElectionFailed),
            },
            CommitteeElectionResult::MessageQueued => Ok(EpochResult::MessageQueued),
            CommitteeElectionResult::MessageIgnored => Ok(EpochResult::MessageIgnored),
            CommitteeElectionResult::Processed => Ok(EpochResult::MessageProcessed),
        }
    }

    /// The outcome of an epoch result, without its outgoing messages.
    pub open spec fn outcome_of(
        r: Result<(EpochResult, Vec<EpochMessageType<RQ, CE::Message>>), EpochError>,
    ) -> Result<EpochResult, EpochError> {
        match r {
            Ok((e, _)) => Ok(e),
            Err(e) => Err(e),
        }
    }

    /// The effect of processing `message` in state `old`, giving `r` and
    /// state `new`.
    pub open spec fn processes(
        old: &Self,
        message: StoredMessage<EpochMessageType<RQ, CE::Message>>,
        r: Result<(EpochResult, Vec<EpochMessageType<RQ, CE::Message>>), EpochError>,
        new: &Self,
    ) -> bool {
        &&& (new.spec_epoch() == old.spec_epoch()
        )
        &&& (new.self_id() == old.self_id()
        )
        &&& (new.quorum() == old.quorum()
        )
        &&& (old.committee() is Some ==> new.committee() == old.committee()
                && new.keeps_slots(old)
        )
        &&& (r is Err ==> r == Err::<(EpochResult, Vec<EpochMessageType<RQ, CE::Message>>), EpochError>(
                EpochError::CommitteeElectionFailed,
            ) && new.committee() is None
        )
        &&& (r is Ok && r->Ok_0.0 == EpochResult::MessageIgnored ==> r->Ok_0.1@.len() == 0
        )
        &&& (r is Ok && r->Ok_0.0 == EpochResult::Finalized ==> new.all_decided()
        )
        &&& (match message.message {
                DumboMessageType::CommitteeElectionMessage(_) => {
                    &&& old.committee() is Some ==> (r is Ok && r->Ok_0.0
                        == EpochResult::MessageIgnored && new.same_epoch(old))
                    &&& (old.committee() is None && new.committee() is Some) ==> {
                        &&& r is Ok
                        &&& r->Ok_0.0 == EpochResult::MessageProcessed
                        &&& forall|i: int| 0 <= i < new.slots().len() ==> (#[trigger] new.slots()[i]).fresh()
                    }
                    &&& r is Ok ==> r->Ok_0.0 != EpochResult::Finalized
                    &&& old.committee() is None ==> exists|
                        res: CommitteeElectionResult,
                        elected: Option<Seq<NodeId>>,
                    | #[trigger] Self::election_outcome(old, res, elected, Self::outcome_of(r), new)
                },
                DumboMessageType::ReliableBroadcast(owner, m) => {
                    &&& (forall|i: int| 0 <= i < old.slots().len() ==> (#[trigger] old.slots()[i]).spec_owner()
                        != owner) ==> (r is Ok && r->Ok_0.0 == EpochResult::MessageIgnored && new.same_epoch(old))
                    &&& r is Ok ==> r->Ok_0.0 != EpochResult::Finalized
                    &&& new.committee() == old.committee()
                    &&& new.local() == old.local()
                    &&& forall|i: int| 0 <= i < old.slots().len() && (#[trigger] old.slots()[i]).spec_owner()
                        == owner ==> {
                        &&& Self::others_unchanged(old, new, i)
                        &&& old.slots()[i].value_rbc() is None ==> new.same_epoch(old)
                        &&& exists|sr: (EpochResult, Option<ReliableBroadcastMessage<Vec<RQ>>>)| {
                            &&& #[trigger] NodeSlot::value_rbc_step(
                                &old.slots()[i],
                                StoredMessage { header: message.header, message: m },
                                sr,
                                &new.slots()[i],
                            )
                            &&& r is Ok
                            &&& r->Ok_0.0 == sr.0
                        }
                    }
                },
                DumboMessageType::IndexReliableBroadcast(owner, m) => {
                    &&& (forall|i: int| 0 <= i < old.slots().len() ==> (#[trigger] old.slots()[i]).spec_owner()
                        != owner) ==> (r is Ok && r->Ok_0.0 == EpochResult::MessageIgnored && new.same_epoch(old))
                    &&& r is Ok ==> r->Ok_0.0 != EpochResult::Finalized
                    &&& new.committee() == old.committee()
                    &&& new.local() == old.local()
                    &&& forall|i: int| 0 <= i < old.slots().len() && (#[trigger] old.slots()[i]).spec_owner()
                        == owner ==> {
                        &&& Self::others_unchanged(old, new, i)
                        &&& old.slots()[i].index_rbc() is None ==> new.same_epoch(old)
                        &&& exists|sr: (EpochResult, Option<ReliableBroadcastMessage<IndexType>>)| {
                            &&& #[trigger] NodeSlot::index_rbc_step(
                                &old.slots()[i],
                                StoredMessage { header: message.header, message: m },
                                sr,
                                &new.slots()[i],
                            )
                            &&& r is Ok
                            &&& r->Ok_0.0 == sr.0
                        }
                    }
                },
                DumboMessageType::AsyncBinaryAgreement(owner, m) => {
                    &&& (forall|i: int| 0 <= i < old.slots().len() && (#[trigger] old.slots()[i]).spec_owner()
                        == owner ==> !old.slots()[i].is_committee()) ==> (r is Ok && r->Ok_0.0
                        == EpochResult::MessageIgnored)
                    &&& (forall|i: int| 0 <= i < old.slots().len() ==> (#[trigger] old.slots()[i]).spec_owner()
                        != owner) ==> new.same_epoch(old)
                    &&& (r is Ok && r->Ok_0.0 == EpochResult::Finalized) == (!old.all_decided() && new.all_decided())
                    &&& new.committee() == old.committee()
                    &&& new.local() == old.local()
                    &&& forall|i: int| 0 <= i < old.slots().len() && (#[trigger] old.slots()[i]).spec_owner()
                        == owner ==> {
                        &&& Self::others_unchanged(old, new, i)
                        &&& old.slots()[i].aba() is None ==> new.same_epoch(old)
                        &&& exists|sr: (EpochResult, Option<AsyncBinaryAgreementMessage>)| {
                            &&& #[trigger] NodeSlot::aba_step(
                                &old.slots()[i],
                                StoredMessage { header: message.header, message: m },
                                sr,
                                &new.slots()[i],
                            )
                            &&& r is Ok
                            &&& (r->Ok_0.0 == sr.0 || r->Ok_0.0 == EpochResult::Finalized && sr.0 == EpochResult::MessageProcessed)
                        }
                    }
                },
            }
        )
    }

    /// Routes one epoch message; returns the outcome and the messages to
    /// broadcast to every member.
    ///
    /// A committee-election message goes to the running election; when it
    /// decides, its committee is installed. A broadcast or agreement message
    /// goes to its owner's instance of that kind, if the owner's slot runs
    /// one, and is ignored otherwise; a delivered value or decision is stored
    /// in the slot. `Finalized` reports that every committee member's
    /// agreement has decided.
    pub fn process_message(
        &mut self,
        message: StoredMessage<EpochMessageType<RQ, CE::Message>>,
    ) -> (r: Result<(EpochResult, Vec<EpochMessageType<RQ, CE::Message>>), EpochError>)
        requires
            old(self).wf(),
        ensures
            final(self).wf(),
            Self::processes(old(self), message, r, final(self)),
    {
        let header = message.header;
        match message.message {
            DumboMessageType::CommitteeElectionMessage(ce_msg) => {
                let mut election = CommitteeState::Completed { committee: Vec::new() };
                std::mem::swap(&mut self.committee_election, &mut election);
                match election {
                    CommitteeState::Completed { committee } => {
                        self.committee_election = CommitteeState::Completed { committee };
                        assert(self.committee() == old(self).committee());
                        assert(self.slots() == old(self).slots());
                        assert(self.local() == old(self).local());
                        assert(self.same_epoch(old(self)));
                        Ok((EpochResult::MessageIgnored, Vec::new()))
                    },
                    CommitteeState::RunningCE(mut ce) => {
                        assert(old(self).committee() is None);
                        let (res, sent) = ce.process_message(StoredMessage { header, message: ce_msg });
                        let mut out: Vec<EpochMessageType<RQ, CE::Message>> = Vec::new();
                        let mut sent = sent;
                        while sent.len() > 0
                            decreases sent.len(),
                        {
                            let m = sent.remove(0);
                            out.push(DumboMessageType::CommitteeElectionMessage(m));
                        }
                        let committee = if res == CommitteeElectionResult::Decided {
                            let elected = ce.finalize();
                            let f = self.quorum_info.f();
                            self.committee_election = CommitteeState::RunningCE(CE::new(&self.quorum_info, f + 1));
                            elected
                        } else {
                            self.committee_election = CommitteeState::RunningCE(ce);
                            None
                        };
                        let ghost elected = if committee is Some {
                            Some(committee->Some_0@)
                        } else {
                            None::<Seq<NodeId>>
                        };
                        assert(self.same_epoch(old(self)));
                        let r = self.apply_election_outcome(res, committee);
                        assert(Self::election_outcome(old(self), res, elected, r, self));
                        match r {
                            Err(e) => Err(e),
                            Ok(result) => {
                                if result == EpochResult::MessageIgnored {
                                    Ok((result, Vec::new()))
                                } else {
                                    Ok((result, out))
                                }
                            },
                        }
                    },
                }
            },
            DumboMessageType::ReliableBroadcast(owner, rbc_msg) => {
                let i = match self.find_slot(owner) {
                    Some(i) => i,
                    None => return Ok((EpochResult::MessageIgnored, Vec::new())),
                };
                let ghost before = self.node_states@;
                let ghost msg = StoredMessage { header, message: rbc_msg };
                let mut slot = self.node_states.remove(i);
                let (res, sent) = slot.process_value_rbc(StoredMessage { header, message: rbc_msg });
                self.node_states.insert(i, slot);
                assert(self.node_states@ =~= before.update(i as int, slot));
                proof {
                    self.lemma_unique_owner(old(self), i as int);
                    assert(NodeSlot::value_rbc_step(&old(self).slots()[i as int], msg, (res, sent), &self.slots()[i as int]));
                    if old(self).slots()[i as int].value_rbc() is None {
                        assert(self.node_states@ =~= before);
                    }
                }
                let mut out: Vec<EpochMessageType<RQ, CE::Message>> = Vec::new();
                match sent {
                    Some(m) => out.push(DumboMessageType::ReliableBroadcast(owner, m)),
                    None => {},
                }
                Ok((res, out))
            },
            DumboMessageType::IndexReliableBroadcast(owner, rbc_msg) => {
                let i = match self.find_slot(owner) {
                    Some(i) => i,
                    None => return Ok((EpochResult::MessageIgnored, Vec::new())),
                };
                let ghost before = self.node_states@;
                let ghost msg = StoredMessage { header, message: rbc_msg };
                let mut slot = self.node_states.remove(i);
                let (res, sent) = slot.process_index_rbc(StoredMessage { header, message: rbc_msg });
                self.node_states.insert(i, slot);
                assert(self.node_states@ =~= before.update(i as int, slot));
                proof {
                    self.lemma_unique_owner(old(self), i as int);
                    assert(NodeSlot::index_rbc_step(&old(self).slots()[i as int], msg, (res, sent), &self.slots()[i as int]));
                    if old(self).slots()[i as int].index_rbc() is None {
                        assert(self.node_states@ =~= before);
                    }
                }
                let mut out: Vec<EpochMessageType<RQ, CE::Message>> = Vec::new();
                match sent {
                    Some(m) => out.push(DumboMessageType::IndexReliableBroadcast(owner, m)),
                    None => {},
                }
                Ok((res, out))
            },
            DumboMessageType::AsyncBinaryAgreement(owner, aba_msg) => {
                let i = match self.find_slot(owner) {
                    Some(i) => i,
                    None => return Ok((EpochResult::MessageIgnored, Vec::new())),
                };
                let ghost before = self.node_states@;
                let ghost msg = StoredMessage { header, message: aba_msg };
                let mut slot = self.node_states.remove(i);
                let (res, sent) = slot.process_aba(StoredMessage { header, message: aba_msg });
                self.node_states.insert(i, slot);
                assert(self.node_states@ =~= before.update(i as int, slot));
                proof {
                    self.lemma_unique_owner(old(self), i as int);
                    assert(NodeSlot::aba_step(&old(self).slots()[i as int], msg, (res, sent), &self.slots()[i as int]));
                    if old(self).slots()[i as int].aba() is None {
                        assert(self.node_states@ =~= before);
                    }
                }
                let mut out: Vec<EpochMessageType<RQ, CE::Message>> = Vec::new();
                match sent {
                    Some(m) => out.push(DumboMessageType::AsyncBinaryAgreement(owner, m)),
                    None => {},
                }
                if res == EpochResult::MessageProcessed && self.is_finalized() {
                    Ok((EpochResult::Finalized, out))
                } else {
                    Ok((res, out))
                }
            },
        }
    }

    /// Starts `owner`'s index broadcast, if `owner` is a committee member
    /// whose value has arrived and whose slot runs nothing else.
    pub fn begin_index_phase(&mut self, owner: NodeId) -> (r: bool)
        requires
            old(self).wf(),
        ensures
            final(self).wf(),
            final(self).spec_epoch() == old(self).spec_epoch(),
            final(self).self_id() == old(self).self_id(),
            final(self).quorum() == old(self).quorum(),
            final(self).committee() == old(self).committee(),
            final(self).keeps_slots(old(self)),
            final(self).local() == old(self).local(),
            !r ==> final(self).same_epoch(old(self)),
            (forall|i: int| 0 <= i < old(self).slots().len() ==> (#[trigger] old(self).slots()[i]).spec_owner() != owner) ==> !r,
            forall|i: int| 0 <= i < old(self).slots().len() && (#[trigger] old(self).slots()[i]).spec_owner() == owner ==> {
                &&& r == old(self).slots()[i].ready_for_index()
                &&& Self::others_unchanged(old(self), final(self), i)
                &&& r ==> {
                    &&& final(self).slots()[i].value() == old(self).slots()[i].value()
                    &&& final(self).slots()[i].index_rbc() matches Some(rbc) && rbc.phase()
                        == crate::reliable_broadcast::ReliableBroadcastState::Init && rbc.spec_sender() == owner
                        && rbc.proposal() is None
                }
            },
    {
        let i = match self.find_slot(owner) {
            Some(i) => i,
            None => return false,
        };
        let ghost before = self.node_states@;
        let mut slot = self.node_states.remove(i);
        let started = slot.begin_index_phase(self.quorum_info.duplicate());
        self.node_states.insert(i, slot);
        assert(self.node_states@ =~= before.update(i as int, slot));
        proof {
            self.lemma_unique_owner(old(self), i as int);
            if !started {
                assert(self.node_states@ =~= before);
            }
        }
        started
    }

    /// Starts the agreement on `owner`'s value with `input_bit`, if `owner` is
    /// a committee member whose agreement has not started; returns whether
    /// it started.
    pub fn start_aba(
        &mut self,
        owner: NodeId,
        input_bit: bool,
        public_keys: PublicKeySet,
        key_share: SecretKeyShare,
    ) -> (r: bool)
        requires
            old(self).wf(),
        ensures
            final(self).wf(),
            final(self).spec_epoch() == old(self).spec_epoch(),
            final(self).self_id() == old(self).self_id(),
            final(self).quorum() == old(self).quorum(),
            final(self).committee() == old(self).committee(),
            final(self).keeps_slots(old(self)),
            final(self).local() == old(self).local(),
            r ==> (old(self).committee() matches Some(c) && c.contains(owner)),
            !r ==> final(self).same_epoch(old(self)),
            (forall|i: int| 0 <= i < old(self).slots().len() ==> (#[trigger] old(self).slots()[i]).spec_owner() != owner) ==> !r,
            forall|i: int| 0 <= i < old(self).slots().len() && (#[trigger] old(self).slots()[i]).spec_owner() == owner ==> {
                &&& r == (old(self).slots()[i].is_committee() && old(self).slots()[i].aba() is None
                    && old(self).slots()[i].decision() is None)
                &&& Self::others_unchanged(old(self), final(self), i)
                &&& r ==> {
                    &&& final(self).slots()[i].value() == old(self).slots()[i].value()
                    &&& final(self).slots()[i].aba() matches Some(a) && a.input() == input_bit && a.spec_round() == 0
                        && a.key() == key_share && a.current() == crate::aba_round::fresh_round(
                        old(self).quorum().spec_f(),
                        input_bit,
                    )
                }
            },
    {
        let i = match self.find_slot(owner) {
            Some(i) => i,
            None => return false,
        };
        let ghost before = self.node_states@;
        let mut slot = self.node_states.remove(i);
        let started = slot.start_aba(input_bit, self.quorum_info.duplicate(), public_keys, key_share);
        self.node_states.insert(i, slot);
        assert(self.node_states@ =~= before.update(i as int, slot));
        proof {
            self.lemma_unique_owner(old(self), i as int);
            if !started {
                assert(self.node_states@ =~= before);
            }
        }
        started
    }

    /// The first held-back message that can now be processed: the running
    /// election's, then each slot's in member order.
    /// Polling stopped at slot `k` (or ran through all slots, `k == len`),
    /// handing out `r`: the slots before `k` were polled and handed out
    /// nothing, slot `k` handed out `r`, and the later slots were not touched.
    pub open spec fn polled_at(
        old: &Self,
        new: &Self,
        k: int,
        r: Option<StoredMessage<EpochMessageType<RQ, CE::Message>>>,
    ) -> bool {
        &&& 0 <= k <= old.slots().len()
        &&& new.slots().len() == old.slots().len()
        &&& forall|j: int| 0 <= j < k ==> NodeSlot::poll_step(
            &old.slots()[j],
            None::<StoredMessage<EpochMessageType<RQ, CE::Message>>>,
            #[trigger] &new.slots()[j],
        )
        &&& k < old.slots().len() ==> r is Some && NodeSlot::poll_step(&old.slots()[k], r, &new.slots()[k])
        &&& k == old.slots().len() ==> r is None
        &&& forall|j: int| k < j < old.slots().len() ==> #[trigger] new.slots()[j] == old.slots()[j]
    }

    /// `r` is what polling `old` hands out, and `new` the state after.
    pub open spec fn polls(
        old: &Self,
        r: Option<StoredMessage<EpochMessageType<RQ, CE::Message>>>,
        new: &Self,
    ) -> bool {
        &&& new.spec_epoch() == old.spec_epoch()
        &&& new.self_id() == old.self_id()
        &&& new.quorum() == old.quorum()
        &&& new.committee() == old.committee()
        &&& new.local() == old.local()
        &&& new.keeps_slots(old)
        &&& old.committee() is None ==> new.same_epoch(old)
        &&& old.committee() is None ==> (r matches Some(m) ==> m.message is CommitteeElectionMessage)
        &&& old.committee() is Some ==> exists|k: int| #[trigger] Self::polled_at(old, new, k, r)
    }

    /// The first held-back message that can now be processed: the running
    /// election's while the committee is not known; then the first that a
    /// slot's instance hands out, in member order.
    pub fn poll(&mut self) -> (r: Option<StoredMessage<EpochMessageType<RQ, CE::Message>>>)
        requires
            old(self).wf(),
        ensures
            final(self).wf(),
            Self::polls(old(self), r, final(self)),
    {
        if let CommitteeState::RunningCE(ce) = &mut self.committee_election {
            return match ce.poll() {
                Some(m) => Some(StoredMessage { header: m.header, message: DumboMessageType::CommitteeElectionMessage(m.message) }),
                None => None,
            };
        }
        let mut i: usize = 0;
        while i < self.node_states.len()
            invariant
                self.wf(),
                0 <= i <= self.node_states.len(),
                self.spec_epoch() == old(self).spec_epoch(),
                self.self_id() == old(self).self_id(),
                self.quorum() == old(self).quorum(),
                self.committee() == old(self).committee(),
                self.local() == old(self).local(),
                self.keeps_slots(old(self)),
                old(self).committee() is Some,
                forall|j: int| 0 <= j < i ==> NodeSlot::poll_step(
                    &old(self).slots()[j],
                    None::<StoredMessage<EpochMessageType<RQ, CE::Message>>>,
                    #[trigger] &self.slots()[j],
                ),
                forall|j: int| i <= j < self.slots().len() ==> #[trigger] self.slots()[j] == old(self).slots()[j],
            decreases self.node_states.len() - i,
        {
            let ghost before = self.node_states@;
            let mut slot = self.node_states.remove(i);
            assert(slot == old(self).slots()[i as int]);
            let polled = slot.poll();
            self.node_states.insert(i, slot);
            assert(self.node_states@ =~= before.update(i as int, slot));
            if polled.is_some() {
                assert(Self::polled_at(old(self), self, i as int, polled));
                return polled;
            }
            i += 1;
        }
        assert(Self::polled_at(old(self), self, i as int, None));
        None
    }
}

} // verus!
