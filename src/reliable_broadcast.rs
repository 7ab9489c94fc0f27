use vstd::prelude::*;
use std::collections::VecDeque;
use crate::node::{NodeId, NodeSet, StoredMessage};
use crate::quorum_info::QuorumInfo;

verus! {

/// A fixed-width cryptographic digest of a broadcast payload.
#[derive(Clone, Copy, Debug, Eq)]
pub struct Digest(pub [u8; 32]);

impl PartialEq for Digest {
    fn eq(&self, o: &Digest) -> (r: bool)
        ensures
            r == (self == o),
    {
        let mut i: usize = 0;
        while i < 32
            invariant
                0 <= i <= 32,
                forall|j: int| 0 <= j < i ==> self.0@[j] == o.0@[j],
            decreases 32 - i,
        {
            if self.0[i] != o.0[i] {
                return false;
            }
            i += 1;
        }
        proof {
            broadcast use vstd::array::group_array_axioms;

            assert(self.0 =~= o.0);
        }
        true
    }
}

impl vstd::std_specs::cmp::PartialEqSpecImpl for Digest {
    open spec fn obeys_eq_spec() -> bool {
        true
    }

    open spec fn eq_spec(&self, o: &Digest) -> bool {
        self == o
    }
}

/// The three messages of Bracha's broadcast.
#[derive(Debug)]
pub enum ReliableBroadcastMessage<RQ> {
    Send(RQ, Digest),
    Echo(Digest),
    Ready(Digest),
}

/// The phases of one broadcast instance, in the order they are reached.
#[derive(Clone, Copy, Debug, PartialEq, Eq, Structural)]
pub enum ReliableBroadcastState {
    Init,
    /// A `Send` was accepted and our echo went out.
    Proposed,
    /// Enough echoes were seen and our ready went out.
    Echoed,
    /// Enough readies were seen: the payload can be delivered.
    Ready,
}

/// Position of a phase in `Init -> Proposed -> Echoed -> Ready`.
pub open spec fn phase_rank(s: ReliableBroadcastState) -> nat {
    match s {
        ReliableBroadcastState::Init => 0,
        ReliableBroadcastState::Proposed => 1,
        ReliableBroadcastState::Echoed => 2,
        ReliableBroadcastState::Ready => 3,
    }
}

/// What processing one message did.
#[derive(Clone, Copy, Debug, PartialEq, Eq, Structural)]
pub enum ReliableBroadcastResult {
    MessageQueued,
    MessageIgnored,
    Processed,
    Finalized,
}

/// Why a delivery was refused.
#[derive(Clone, Copy, Debug, PartialEq, Eq, Structural)]
pub enum ReliableBroadcastError {
    NoProposedMessages,
    NotReadyToFinalize,
}

/// Messages that arrived before the instance could use them, one FIFO queue
/// per kind.
struct PendingMessages<M> {
    echoes: VecDeque<StoredMessage<ReliableBroadcastMessage<M>>>,
    readies: VecDeque<StoredMessage<ReliableBroadcastMessage<M>>>,
}

/// Who has been heard from, and what we have sent.
struct MessageTracking {
    received_echoes: NodeSet,
    received_readies: NodeSet,
    sent_echo: bool,
    sent_ready: bool,
}

/// One Bracha broadcast of a payload of type `RQ` from a designated sender.
pub struct ReliableBroadcastInstance<RQ> {
    sender: NodeId,
    quorum_info: QuorumInfo,
    proposed_messages: Option<(RQ, Digest)>,
    message_tracking: MessageTracking,
    reliable_broadcast_state: ReliableBroadcastState,
    pending_messages: PendingMessages<RQ>,
}

impl<RQ> ReliableBroadcastInstance<RQ> {
    pub closed spec fn spec_sender(&self) -> NodeId {
        self.sender
    }

    pub closed spec fn quorum(&self) -> QuorumInfo {
        self.quorum_info
    }

    pub closed spec fn phase(&self) -> ReliableBroadcastState {
        self.reliable_broadcast_state
    }

    /// The accepted proposal, if any.
    pub closed spec fn proposal(&self) -> Option<(RQ, Digest)> {
        self.proposed_messages
    }

    pub open spec fn digest(&self) -> Option<Digest> {
        match self.proposal() {
            Some((_, d)) => Some(d),
            None => None,
        }
    }

    pub closed spec fn echoes(&self) -> Set<NodeId> {
        self.message_tracking.received_echoes@
    }

    pub closed spec fn readies(&self) -> Set<NodeId> {
        self.message_tracking.received_readies@
    }

    pub closed spec fn sent_echo(&self) -> bool {
        self.message_tracking.sent_echo
    }

    pub closed spec fn sent_ready(&self) -> bool {
        self.message_tracking.sent_ready
    }

    pub closed spec fn pending_echoes(&self) -> Seq<StoredMessage<ReliableBroadcastMessage<RQ>>> {
        self.pending_messages.echoes@
    }

    pub closed spec fn pending_readies(&self) -> Seq<StoredMessage<ReliableBroadcastMessage<RQ>>> {
        self.pending_messages.readies@
    }

    /// Echoes needed before our ready goes out: `n - f`.
    pub open spec fn echo_threshold(&self) -> nat {
        (self.quorum().spec_n() - self.quorum().spec_f()) as nat
    }

    /// Readies needed before delivery: strictly more than `2f`.
    pub open spec fn ready_threshold(&self) -> nat {
        2 * self.quorum().spec_f() + 1
    }

    /// The invariant of an instance.
    pub closed spec fn wf(&self) -> bool {
        &&& self.quorum_info.wf()
        &&& self.message_tracking.received_echoes.wf()
        &&& self.message_tracking.received_readies.wf()
        &&& (self.reliable_broadcast_state == ReliableBroadcastState::Init
            <==> self.proposed_messages is None)
        &&& self.sent_echo() == (phase_rank(self.phase()) >= 2)
        &&& self.sent_ready() == (phase_rank(self.phase()) >= 3)
        &&& phase_rank(self.phase()) >= 2 ==> self.echoes().len() >= self.echo_threshold()
        &&& phase_rank(self.phase()) >= 3 ==> self.readies().len() >= self.ready_threshold()
        &&& forall|i: int| 0 <= i < self.pending_echoes().len()
            ==> (#[trigger] self.pending_echoes()[i]).message is Echo
        &&& forall|i: int| 0 <= i < self.pending_readies().len()
            ==> (#[trigger] self.pending_readies()[i]).message is Ready
    }

    /// What the invariant gives a caller.
    pub proof fn lemma_wf_facts(&self)
        requires
            self.wf(),
        ensures
            self.quorum().wf(),
            self.echoes().finite(),
            self.readies().finite(),
            self.phase() != ReliableBroadcastState::Init ==> self.proposal() is Some,
            phase_rank(self.phase()) >= 2 ==> self.echoes().len() >= self.echo_threshold(),
            phase_rank(self.phase()) >= 3 ==> self.readies().len() >= self.ready_threshold(),
    {
        self.message_tracking.received_echoes.lemma_finite();
        self.message_tracking.received_readies.lemma_finite();
    }

    /// Everything but the pending queues is as in `other`.
    pub open spec fn same_votes(&self, other: &Self) -> bool {
        &&& self.spec_sender() == other.spec_sender()
        &&& self.quorum() == other.quorum()
        &&& self.phase() == other.phase()
        &&& self.proposal() == other.proposal()
        &&& self.echoes() == other.echoes()
        &&& self.readies() == other.readies()
        &&& self.sent_echo() == other.sent_echo()
        &&& self.sent_ready() == other.sent_ready()
    }

    pub open spec fn same_state(&self, other: &Self) -> bool {
        &&& self.same_votes(other)
        &&& self.pending_echoes() == other.pending_echoes()
        &&& self.pending_readies() == other.pending_readies()
    }

    /// A fresh instance in `Init` for broadcasts from `sender`.
    pub fn new(sender: NodeId, quorum_info: QuorumInfo) -> (r: Self)
        requires
            quorum_info.wf(),
        ensures
            r.wf(),
            r.spec_sender() == sender,
            r.quorum() == quorum_info,
            r.phase() == ReliableBroadcastState::Init,
            r.proposal() is None,
            r.echoes() == Set::<NodeId>::empty(),
            r.readies() == Set::<NodeId>::empty(),
            !r.sent_echo(),
            !r.sent_ready(),
            r.pending_echoes() == Seq::<StoredMessage<ReliableBroadcastMessage<RQ>>>::empty(),
            r.pending_readies() == Seq::<StoredMessage<ReliableBroadcastMessage<RQ>>>::empty(),
    {
        let r = ReliableBroadcastInstance {
            sender,
            quorum_info,
            proposed_messages: None,
            message_tracking: MessageTracking {
                received_echoes: NodeSet::new(),
                received_readies: NodeSet::new(),
                sent_echo: false,
                sent_ready: false,
            },
            reliable_broadcast_state: ReliableBroadcastState::Init,
            pending_messages: PendingMessages { echoes: VecDeque::new(), readies: VecDeque::new() },
        };
        assert(r.pending_echoes() =~= Seq::<StoredMessage<ReliableBroadcastMessage<RQ>>>::empty());
        assert(r.pending_readies() =~= Seq::<StoredMessage<ReliableBroadcastMessage<RQ>>>::empty());
        r
    }

    pub fn sender(&self) -> (r: NodeId)
        ensures
            r == self.spec_sender(),
    {
        self.sender
    }

    pub fn state(&self) -> (r: ReliableBroadcastState)
        ensures
            r == self.phase(),
    {
        self.reliable_broadcast_state
    }

    /// Whether `poll` would hand out a message now.
    pub fn has_pending(&self) -> (r: bool)
        ensures
            r == (self.phase() == ReliableBroadcastState::Proposed && self.pending_echoes().len() > 0
                || self.phase() == ReliableBroadcastState::Echoed && self.pending_readies().len()
                > 0),
    {
        match self.reliable_broadcast_state {
            ReliableBroadcastState::Proposed => self.pending_messages.echoes.len() > 0,
            ReliableBroadcastState::Echoed => self.pending_messages.readies.len() > 0,
            ReliableBroadcastState::Init | ReliableBroadcastState::Ready => false,
        }
    }

    /// `r` is what polling `old` hands out, and `new` the state after.
    pub open spec fn polls(old: &Self, r: Option<StoredMessage<ReliableBroadcastMessage<RQ>>>, new: &Self) -> bool {
        &&& (new.same_votes(old))
        &&& (phase_rank(new.phase()) == phase_rank(old.phase()))
        &&& (old.phase() == ReliableBroadcastState::Proposed && old.pending_echoes().len() > 0
                ==> {
                &&& r == Some(old.pending_echoes()[0])
                &&& new.pending_echoes() == old.pending_echoes().drop_first()
                &&& new.pending_readies() == old.pending_readies()
            })
        &&& (old.phase() == ReliableBroadcastState::Echoed && old.pending_readies().len() > 0
                ==> {
                &&& r == Some(old.pending_readies()[0])
                &&& new.pending_readies() == old.pending_readies().drop_first()
                &&& new.pending_echoes() == old.pending_echoes()
            })
        &&& (!(old.phase() == ReliableBroadcastState::Proposed && old.pending_echoes().len()
                > 0) && !(old.phase() == ReliableBroadcastState::Echoed
                && old.pending_readies().len() > 0) ==> {
                &&& r is None
                &&& new.same_state(old)
            })
    }

    /// Hands back the oldest queued message of the kind the current phase
    /// accepts: echoes while `Proposed`, readies while `Echoed`.
    pub fn poll(&mut self) -> (r: Option<StoredMessage<ReliableBroadcastMessage<RQ>>>)
        requires
            old(self).wf(),
        ensures
            final(self).wf(),
            Self::polls(old(self), r, final(self)),
    {
        match self.reliable_broadcast_state {
            ReliableBroadcastState::Proposed => self.pending_messages.echoes.pop_front(),
            ReliableBroadcastState::Echoed => self.pending_messages.readies.pop_front(),
            ReliableBroadcastState::Ready | ReliableBroadcastState::Init => None,
        }
    }
}


impl<RQ> ReliableBroadcastInstance<RQ> {
    /// A `Send` is taken only as the first proposal, in `Init`.
    pub open spec fn accepts_send(&self) -> bool {
        self.proposal() is None && self.phase() == ReliableBroadcastState::Init
    }

    /// An `Echo(d)` is counted only while `Proposed`, for the proposed digest.
    pub open spec fn accepts_echo(&self, d: Digest) -> bool {
        self.phase() == ReliableBroadcastState::Proposed && self.digest() == Some(d)
    }

    /// A `Ready(d)` is counted only while `Echoed`, for the proposed digest.
    pub open spec fn accepts_ready(&self, d: Digest) -> bool {
        self.phase() == ReliableBroadcastState::Echoed && self.digest() == Some(d)
    }

    /// The effect of processing `sys_msg` in state `old`, giving `r` and
    /// state `new`.
    pub open spec fn processes(
        old: &Self,
        sys_msg: StoredMessage<ReliableBroadcastMessage<RQ>>,
        r: (ReliableBroadcastResult, Option<ReliableBroadcastMessage<RQ>>),
        new: &Self,
    ) -> bool {
        &&& new.spec_sender() == old.spec_sender()
        &&& new.quorum() == old.quorum()
        &&& phase_rank(new.phase()) >= phase_rank(old.phase())
        &&& match sys_msg.message {
                ReliableBroadcastMessage::Send(p, d) => if old.accepts_send() {
                    &&& r.0 == ReliableBroadcastResult::Processed
                    &&& r.1 == Some(ReliableBroadcastMessage::<RQ>::Echo(d))
                    &&& new.proposal() == Some((p, d))
                    &&& new.phase() == ReliableBroadcastState::Proposed
                    &&& new.echoes() == old.echoes()
                    &&& new.readies() == old.readies()
                    &&& new.sent_echo() == old.sent_echo()
                    &&& new.sent_ready() == old.sent_ready()
                    &&& new.pending_echoes() == old.pending_echoes()
                    &&& new.pending_readies() == old.pending_readies()
                } else {
                    &&& r.0 == ReliableBroadcastResult::MessageIgnored
                    &&& r.1 is None
                    &&& new.same_state(old)
                },
                ReliableBroadcastMessage::Echo(d) => if old.accepts_echo(d) {
                    let reached = new.echoes().len() >= old.echo_threshold()
                        && !old.sent_echo();
                    &&& r.0 == ReliableBroadcastResult::Processed
                    &&& new.echoes() == old.echoes().insert(sys_msg.header.from)
                    &&& new.proposal() == old.proposal()
                    &&& new.readies() == old.readies()
                    &&& new.sent_ready() == old.sent_ready()
                    &&& new.pending_echoes() == old.pending_echoes()
                    &&& new.pending_readies() == old.pending_readies()
                    &&& reached ==> {
                        &&& new.phase() == ReliableBroadcastState::Echoed
                        &&& new.sent_echo()
                        &&& r.1 == Some(ReliableBroadcastMessage::<RQ>::Ready(d))
                    }
                    &&& !reached ==> {
                        &&& new.phase() == old.phase()
                        &&& new.sent_echo() == old.sent_echo()
                        &&& r.1 is None
                    }
                } else {
                    &&& r.0 == ReliableBroadcastResult::MessageQueued
                    &&& r.1 is None
                    &&& new.same_votes(old)
                    &&& new.pending_echoes() == old.pending_echoes().push(sys_msg)
                    &&& new.pending_readies() == old.pending_readies()
                },
                ReliableBroadcastMessage::Ready(d) => if old.accepts_ready(d) {
                    let reached = new.readies().len() >= old.ready_threshold()
                        && !old.sent_ready();
                    &&& r.1 is None
                    &&& new.readies() == old.readies().insert(sys_msg.header.from)
                    &&& new.proposal() == old.proposal()
                    &&& new.echoes() == old.echoes()
                    &&& new.sent_echo() == old.sent_echo()
                    &&& new.pending_echoes() == old.pending_echoes()
                    &&& new.pending_readies() == old.pending_readies()
                    &&& reached ==> {
                        &&& r.0 == ReliableBroadcastResult::Finalized
                        &&& new.phase() == ReliableBroadcastState::Ready
                        &&& new.sent_ready()
                    }
                    &&& !reached ==> {
                        &&& r.0 == ReliableBroadcastResult::Processed
                        &&& new.phase() == old.phase()
                        &&& new.sent_ready() == old.sent_ready()
                    }
                } else {
                    &&& r.0 == ReliableBroadcastResult::MessageQueued
                    &&& r.1 is None
                    &&& new.same_votes(old)
                    &&& new.pending_readies() == old.pending_readies().push(sys_msg)
                    &&& new.pending_echoes() == old.pending_echoes()
                },
            }
    }

    /// Handles one message and returns the outcome together with the message
    /// to broadcast to every member, if any.
    ///
    /// A `Send` in `Init` is stored and echoed; a later one is ignored. An
    /// echo or ready that matches the phase and the stored digest records its
    /// sender; `n - f` echoes make us broadcast `Ready` and enter `Echoed`, and
    /// more than `2f` readies enter `Ready` with `Finalized`. Every other echo
    /// or ready is queued for `poll`.
    pub fn process_message(&mut self, sys_msg: StoredMessage<ReliableBroadcastMessage<RQ>>) -> (r: (
        ReliableBroadcastResult,
        Option<ReliableBroadcastMessage<RQ>>,
    ))
        requires
            old(self).wf(),
        ensures
            final(self).wf(),
            Self::processes(old(self), sys_msg, r, final(self)),
    {
        let header = sys_msg.header;
        let from = header.from;
        match sys_msg.message {
            ReliableBroadcastMessage::Send(messages, digest) => {
                if self.proposed_messages.is_none() && matches!(
                    self.reliable_broadcast_state,
                    ReliableBroadcastState::Init
                ) {
                    self.proposed_messages = Some((messages, digest));
                    self.reliable_broadcast_state = ReliableBroadcastState::Proposed;
                    (ReliableBroadcastResult::Processed, Some(ReliableBroadcastMessage::Echo(digest)))
                } else {
                    (ReliableBroadcastResult::MessageIgnored, None)
                }
            },
            ReliableBroadcastMessage::Echo(digest) => {
                if self.current_digest_is(digest) && matches!(
                    self.reliable_broadcast_state,
                    ReliableBroadcastState::Proposed
                ) {
                    self.message_tracking.received_echoes.insert(from);
                    let echoes = self.message_tracking.received_echoes.len();
                    if echoes >= self.quorum_info.n() - self.quorum_info.f()
                        && !self.message_tracking.sent_echo {
                        self.reliable_broadcast_state = ReliableBroadcastState::Echoed;
                        self.message_tracking.sent_echo = true;
                        (ReliableBroadcastResult::Processed, Some(ReliableBroadcastMessage::Ready(digest)))
                    } else {
                        (ReliableBroadcastResult::Processed, None)
                    }
                } else {
                    let queued = StoredMessage { header, message: ReliableBroadcastMessage::Echo(digest) };
                    self.pending_messages.echoes.push_back(queued);
                    (ReliableBroadcastResult::MessageQueued, None)
                }
            },
            ReliableBroadcastMessage::Ready(digest) => {
                if self.current_digest_is(digest) && matches!(
                    self.reliable_broadcast_state,
                    ReliableBroadcastState::Echoed
                ) {
                    self.message_tracking.received_readies.insert(from);
                    let readies = self.message_tracking.received_readies.len();
                    if readies > 2 * self.quorum_info.f() && !self.message_tracking.sent_ready {
                        self.reliable_broadcast_state = ReliableBroadcastState::Ready;
                        self.message_tracking.sent_ready = true;
                        (ReliableBroadcastResult::Finalized, None)
                    } else {
                        (ReliableBroadcastResult::Processed, None)
                    }
                } else {
                    let queued = StoredMessage { header, message: ReliableBroadcastMessage::Ready(digest) };
                    self.pending_messages.readies.push_back(queued);
                    (ReliableBroadcastResult::MessageQueued, None)
                }
            },
        }
    }

    /// Whether a proposal is stored and its digest is `d`.
    fn current_digest_is(&self, d: Digest) -> (r: bool)
        ensures
            r == (self.digest() == Some(d)),
    {
        match &self.proposed_messages {
            Some((_, digest)) => *digest == d,
            None => false,
        }
    }

    /// The delivered payload and its digest; refused unless the instance is
    /// `Ready`.
    pub fn finalize(self) -> (r: Result<(RQ, Digest), ReliableBroadcastError>)
        requires
            self.wf(),
        ensures
            self.phase() == ReliableBroadcastState::Ready ==> r is Ok && self.proposal() == Some(
                r->Ok_0,
            ),
            self.phase() != ReliableBroadcastState::Ready ==> r == Err::<(RQ, Digest), _>(
                ReliableBroadcastError::NotReadyToFinalize,
            ),
    {
        if matches!(self.reliable_broadcast_state, ReliableBroadcastState::Ready) {
            match self.proposed_messages {
                Some((messages, digest)) => Ok((messages, digest)),
                None => Err(ReliableBroadcastError::NoProposedMessages),
            }
        } else {
            Err(ReliableBroadcastError::NotReadyToFinalize)
        }
    }
}

} // verus!
