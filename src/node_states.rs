use vstd::prelude::*;
use crate::aba::AsyncBinaryAgreement;
use crate::node::NodeId;
use crate::reliable_broadcast::ReliableBroadcastInstance;

verus! {

/// The index a committee member broadcasts: which owners' values it holds.
pub type IndexType = usize;

/// The state of the committee election of an epoch.
pub enum CommitteeState<CE> {
    RunningCE(CE),
    Completed { committee: Vec<NodeId> },
}

/// Our own role in an epoch.
#[derive(Clone, Copy, Debug, PartialEq, Eq, Structural)]
pub enum LocalDumboState {
    WaitingForCommittee,
    CommitteeMember,
    NonCommitteeMember,
}

/// What runs for a committee member's slot.
pub enum CommitteeNodeExecuting<RQ> {
    Idle,
    RunningValueRBC(ReliableBroadcastInstance<Vec<RQ>>),
    WaitingForRBCs,
    RunningIndexRBC(ReliableBroadcastInstance<IndexType>),
    RunningABA(AsyncBinaryAgreement),
    Done,
}

/// What has been obtained for a committee member's slot so far.
pub enum CommitteeNodeState<RQ> {
    Empty,
    ValueRBC { value: Vec<RQ> },
    IndexRBC { value: Vec<RQ>, index: IndexType },
    ABA { value: Vec<RQ>, index: IndexType, decision: bool },
}

impl<RQ> CommitteeNodeState<RQ> {
    /// Stores the delivered value; whatever was held before is replaced.
    pub fn received_value(&mut self, value: Vec<RQ>)
        ensures
            *final(self) == (CommitteeNodeState::ValueRBC { value }),
    {
        *self = CommitteeNodeState::ValueRBC { value };
    }

    /// Adds the delivered index to a held value.
    pub fn received_index(&mut self, index: IndexType)
        requires
            *old(self) is ValueRBC,
        ensures
            *final(self) == (CommitteeNodeState::IndexRBC { value: old(self)->ValueRBC_value, index }),
    {
        let mut taken = CommitteeNodeState::Empty;
        std::mem::swap(self, &mut taken);
        if let CommitteeNodeState::ValueRBC { value } = taken {
            *self = CommitteeNodeState::IndexRBC { value, index };
        }
    }

    /// Adds the agreement's decision to a held value and index.
    pub fn received_decision(&mut self, decision: bool)
        requires
            *old(self) is IndexRBC,
        ensures
            *final(self) == (CommitteeNodeState::ABA {
                value: old(self)->IndexRBC_value,
                index: old(self)->IndexRBC_index,
                decision,
            }),
    {
        let mut taken = CommitteeNodeState::Empty;
        std::mem::swap(self, &mut taken);
        if let CommitteeNodeState::IndexRBC { value, index } = taken {
            *self = CommitteeNodeState::ABA { value, index, decision };
        }
    }
}

/// What runs for a non-committee node's slot.
pub enum NonCommitteeNodeExec<RQ> {
    RunningValueRBC(ReliableBroadcastInstance<Vec<RQ>>),
    Completed,
}

/// What has been obtained for a non-committee node's slot.
pub enum NonCommitteeNodeState<RQ> {
    Empty,
    ValueRBC { value: Vec<RQ> },
}

impl<RQ> NonCommitteeNodeState<RQ> {
    /// Stores the delivered value; whatever was held before is replaced.
    pub fn received_value(&mut self, value: Vec<RQ>)
        ensures
            *final(self) == (NonCommitteeNodeState::ValueRBC { value }),
    {
        *self = NonCommitteeNodeState::ValueRBC { value };
    }
}

/// The execution machine and the value slot of one node in an epoch.
pub enum NodeState<RQ> {
    CommitteeNode(CommitteeNodeExecuting<RQ>, CommitteeNodeState<RQ>),
    NonCommitteeNode(NonCommitteeNodeExec<RQ>, NonCommitteeNodeState<RQ>),
}

} // verus!
