use vstd::prelude::*;
use crate::node::{NodeId, StoredMessage};
use crate::quorum_info::QuorumInfo;

verus! {

/// What processing one message did to a committee election.
#[derive(Clone, Copy, Debug, PartialEq, Eq, Structural)]
pub enum CommitteeElectionResult {
    MessageQueued,
    MessageIgnored,
    Processed,
    Decided,
}

/// A pluggable committee election: it picks `committee_size` members of the
/// quorum. Each call of `process_message` returns its outcome and the
/// messages to broadcast to every member.
pub trait CommitteeElectionProtocol: Sized {
    type Message;

    fn new(quorum_info: &QuorumInfo, committee_size: usize) -> Self;

    /// A held-back message that can now be processed, if any.
    fn poll(&mut self) -> Option<StoredMessage<Self::Message>>;

    fn process_message(&mut self, message: StoredMessage<Self::Message>) -> (CommitteeElectionResult, Vec<Self::Message>);

    /// The elected committee; `None` if the election cannot produce one.
    fn finalize(self) -> Option<Vec<NodeId>>;
}

} // verus!
