use vstd::prelude::*;
use crate::aba_messages::AsyncBinaryAgreementMessage;
use crate::node::NodeId;
use crate::node_states::IndexType;
use crate::reliable_broadcast::ReliableBroadcastMessage;

verus! {

/// The messages of one epoch, each tagged with the node whose instance it
/// belongs to (but the committee election's, which are the epoch's own).
#[derive(Debug)]
pub enum DumboMessageType<RBM, IRBM, AM, CEM> {
    ReliableBroadcast(NodeId, RBM),
    IndexReliableBroadcast(NodeId, IRBM),
    AsyncBinaryAgreement(NodeId, AM),
    CommitteeElectionMessage(CEM),
}

/// The epoch messages for payloads that are vectors of `RQ`.
pub type EpochMessageType<RQ, CEM> = DumboMessageType<
    ReliableBroadcastMessage<Vec<RQ>>,
    ReliableBroadcastMessage<IndexType>,
    AsyncBinaryAgreementMessage,
    CEM,
>;

/// An epoch message for payloads that are vectors of `RQ`, with its epoch.
pub type EpochMessage<RQ, CEM> = DumboMessage<
    ReliableBroadcastMessage<Vec<RQ>>,
    ReliableBroadcastMessage<IndexType>,
    AsyncBinaryAgreementMessage,
    CEM,
>;

/// An epoch message with the epoch it belongs to.
#[derive(Debug)]
pub struct DumboMessage<RBM, IRBM, AM, CEM> {
    pub message_round: u64,
    pub message_type: DumboMessageType<RBM, IRBM, AM, CEM>,
}

impl<RBM, IRBM, AM, CEM> DumboMessage<RBM, IRBM, AM, CEM> {
    pub fn new(message_round: u64, message_type: DumboMessageType<RBM, IRBM, AM, CEM>) -> (r: Self)
        ensures
            r.message_round == message_round,
            r.message_type == message_type,
    {
        DumboMessage { message_round, message_type }
    }

    pub fn sequence_number(&self) -> (r: u64)
        ensures
            r == self.message_round,
    {
        self.message_round
    }

    pub fn message_type(&self) -> (r: &DumboMessageType<RBM, IRBM, AM, CEM>)
        ensures
            *r == self.message_type,
    {
        &self.message_type
    }
}

} // verus!
