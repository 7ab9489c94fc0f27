use vstd::prelude::*;
use crate::committee_election::CommitteeElectionProtocol;
use crate::epoch::{DumboRound, EpochError, EpochResult};
use crate::message::{DumboMessage, EpochMessage, EpochMessageType};
use crate::node::{NodeId, StoredMessage};
use crate::quorum_info::QuorumInfo;

verus! {

/// How many epochs, from the current one on, may run at once.
pub const EPOCH_WINDOW: u64 = 4;

/// Nodes needed to tolerate `f` faults: `3f + 1`.
pub fn get_n_for_f(f: usize) -> (r: usize)
    requires
        3 * f + 1 <= usize::MAX,
    ensures
        r == 3 * f + 1,
{
    3 * f + 1
}

/// The common-coin threshold for `n` nodes: `(n - 1) / 2`.
pub fn get_quorum_for_n(n: usize) -> (r: usize)
    requires
        n >= 1,
    ensures
        r == (n - 1) / 2,
{
    (n - 1) / 2
}

/// Faults tolerated by `n` nodes: `(n - 1) / 3`.
pub fn get_f_for_n(n: usize) -> (r: usize)
    requires
        n >= 1,
    ensures
        r == (n - 1) / 3,
{
    (n - 1) / 3
}

/// The engine: the epochs that run at once, from the current one on.
pub struct Dumbo<CE, RQ> {
    epoch_num: u64,
    node_id: NodeId,
    quorum_info: QuorumInfo,
    rounds: Vec<DumboRound<CE, RQ>>,
    is_executing: bool,
}

impl<CE: CommitteeElectionProtocol, RQ> Dumbo<CE, RQ> {
    pub closed spec fn current_epoch(&self) -> u64 {
        self.epoch_num
    }

    /// Whether outputs are being emitted.
    pub closed spec fn executing(&self) -> bool {
        self.is_executing
    }

    /// The state of each epoch held, in order.
    pub closed spec fn rounds(&self) -> Seq<DumboRound<CE, RQ>> {
        self.rounds@
    }

    /// `r` is `rr` with every outgoing message stamped with `epoch`.
    pub open spec fn stamped(
        epoch: u64,
        rr: Result<(EpochResult, Vec<EpochMessageType<RQ, CE::Message>>), EpochError>,
        r: Result<(EpochResult, Vec<EpochMessage<RQ, CE::Message>>), EpochError>,
    ) -> bool {
        &&& r is Err <==> rr is Err
        &&& r is Err ==> r->Err_0 == rr->Err_0
        &&& r is Ok ==> {
            &&& r->Ok_0.0 == rr->Ok_0.0
            &&& r->Ok_0.1@.len() == rr->Ok_0.1@.len()
            &&& forall|k: int| 0 <= k < r->Ok_0.1@.len() ==> #[trigger] r->Ok_0.1@[k] == (DumboMessage {
                message_round: epoch,
                message_type: rr->Ok_0.1@[k],
            })
        }
    }

    /// `message` went to the epoch that stands at `i` afterwards, whose state
    /// before was `e0` (an epoch held before, or a fresh one when none was),
    /// which processed it into `rr` as its own contract says; `r` is `rr`
    /// stamped with the epoch, and every other epoch is one held before.
    pub open spec fn routed(
        old: &Self,
        message: StoredMessage<EpochMessage<RQ, CE::Message>>,
        i: int,
        e0: DumboRound<CE, RQ>,
        rr: Result<(EpochResult, Vec<EpochMessageType<RQ, CE::Message>>), EpochError>,
        r: Result<(EpochResult, Vec<EpochMessage<RQ, CE::Message>>), EpochError>,
        new: &Self,
    ) -> bool {
        let epoch = message.message.message_round;
        &&& 0 <= i < new.rounds().len()
        &&& new.rounds()[i].spec_epoch() == epoch
        &&& DumboRound::processes(
            &e0,
            StoredMessage { header: message.header, message: message.message.message_type },
            rr,
            &new.rounds()[i],
        )
        &&& Self::stamped(epoch, rr, r)
        &&& old.epochs().contains(epoch) ==> old.rounds().contains(e0)
        &&& !old.epochs().contains(epoch) ==> e0.committee() is None && e0.spec_epoch() == epoch
        &&& forall|j: int| 0 <= j < new.rounds().len() && j != i ==> old.rounds().contains(#[trigger] new.rounds()[j])
    }

    /// The epochs held, in order.
    pub closed spec fn epochs(&self) -> Seq<u64> {
        self.rounds@.map_values(|r: DumboRound<CE, RQ>| r.spec_epoch())
    }

    pub closed spec fn wf(&self) -> bool {
        &&& self.quorum_info.wf()
        &&& self.epoch_num <= u64::MAX - EPOCH_WINDOW
        &&& forall|i: int| 0 <= i < self.rounds@.len() ==> {
            &&& (#[trigger] self.rounds@[i]).wf()
            &&& self.rounds@[i].self_id() == self.node_id
        }
        &&& forall|i: int| 0 <= i < self.epochs().len() ==> self.epoch_num <= #[trigger] self.epochs()[i]
            < self.epoch_num + EPOCH_WINDOW
        &&& forall|i: int, j: int| 0 <= i < j < self.epochs().len() ==> self.epochs()[i] < self.epochs()[j]
    }

    pub fn new(node_id: NodeId, quorum_info: QuorumInfo) -> (r: Self)
        requires
            quorum_info.wf(),
        ensures
            r.wf(),
            r.current_epoch() == 1,
            r.epochs() == Seq::<u64>::empty(),
            r.executing(),
    {
        let r = Dumbo { epoch_num: 1, node_id, quorum_info, rounds: Vec::new(), is_executing: true };
        assert(r.epochs() =~= Seq::<u64>::empty());
        r
    }

    pub fn sequence_number(&self) -> (r: u64)
        ensures
            r == self.current_epoch(),
    {
        self.epoch_num
    }

    /// Moves the current epoch up to `seq_no` and drops the epochs below it;
    /// a lower `seq_no` changes nothing.
    pub fn install_seq_no(&mut self, seq_no: u64)
        requires
            old(self).wf(),
            seq_no <= u64::MAX - EPOCH_WINDOW,
        ensures
            final(self).wf(),
            final(self).current_epoch() == if seq_no > old(self).current_epoch() {
                seq_no
            } else {
                old(self).current_epoch()
            },
            forall|e: u64| #[trigger] final(self).epochs().contains(e) <==> old(self).epochs().contains(e) && e
                >= final(self).current_epoch(),
    {
        if seq_no <= self.epoch_num {
            return;
        }
        let ghost old_epochs = self.epochs();
        let ghost mut k: int = 0;
        while self.rounds.len() > 0 && self.rounds[0].epoch() < seq_no
            invariant
                0 <= k <= old_epochs.len(),
                self.epochs() == old_epochs.subrange(k, old_epochs.len() as int),
                forall|j: int| 0 <= j < k ==> old_epochs[j] < seq_no,
                forall|j: int| 0 <= j < self.rounds@.len() ==> {
                    &&& (#[trigger] self.rounds@[j]).wf()
                    &&& self.rounds@[j].self_id() == self.node_id
                },
                forall|a: int, b: int| 0 <= a < b < old_epochs.len() ==> old_epochs[a] < old_epochs[b],
                forall|j: int| 0 <= j < old_epochs.len() ==> old(self).epoch_num <= #[trigger] old_epochs[j]
                    < old(self).epoch_num + EPOCH_WINDOW,
                self.epoch_num == old(self).epoch_num,
                self.quorum_info == old(self).quorum_info,
                self.node_id == old(self).node_id,
            decreases self.rounds.len(),
        {
            let ghost before = self.rounds@;
            let ghost before_epochs = self.epochs();
            assert(before_epochs.len() == before.len());
            assert(old_epochs.subrange(k, old_epochs.len() as int)[0] == old_epochs[k]);
            self.rounds.remove(0);
            proof {
                assert(self.rounds@ == before.remove(0));
                assert forall|j: int| 0 <= j < self.epochs().len() implies self.epochs()[j] == old_epochs[k + 1 + j] by {
                    assert(self.rounds@[j] == before[j + 1]);
                    assert(before_epochs[j + 1] == old_epochs.subrange(k, old_epochs.len() as int)[j + 1]);
                }
                k = k + 1;
                assert(self.epochs() =~= old_epochs.subrange(k, old_epochs.len() as int));
            }
        }
        self.epoch_num = seq_no;
        proof {
            if self.rounds@.len() > 0 {
                assert(self.epochs()[0] == old_epochs[k]);
            }
            assert forall|j: int| 0 <= j < self.epochs().len() implies seq_no <= #[trigger] self.epochs()[j]
                < seq_no + EPOCH_WINDOW by {
                assert(self.epochs()[j] == old_epochs[k + j]);
                if j > 0 {
                    assert(old_epochs[k] < old_epochs[k + j]);
                }
            }
            assert forall|a: int, b: int| 0 <= a < b < self.epochs().len() implies self.epochs()[a]
                < self.epochs()[b] by {
                assert(self.epochs()[a] == old_epochs[k + a]);
                assert(self.epochs()[b] == old_epochs[k + b]);
            }
            assert forall|e: u64| #[trigger] self.epochs().contains(e) <==> old_epochs.contains(e) && e >= seq_no by {
                if self.epochs().contains(e) {
                    let j = choose|j: int| 0 <= j < self.epochs().len() && self.epochs()[j] == e;
                    assert(old_epochs[k + j] == e);
                }
                if old_epochs.contains(e) && e >= seq_no {
                    let j = choose|j: int| 0 <= j < old_epochs.len() && old_epochs[j] == e;
                    assert(self.epochs()[j - k] == e);
                }
            }
        }
    }

    /// The position of epoch `epoch`'s state, created if the epoch is new.
    fn epoch_index(&mut self, epoch: u64) -> (r: usize)
        requires
            old(self).wf(),
            old(self).current_epoch() <= epoch < old(self).current_epoch() + EPOCH_WINDOW,
        ensures
            final(self).wf(),
            final(self).current_epoch() == old(self).current_epoch(),
            r < final(self).epochs().len(),
            final(self).epochs()[r as int] == epoch,
            forall|e: u64| #[trigger] final(self).epochs().contains(e) <==> old(self).epochs().contains(e) || e == epoch,
            forall|j: int| 0 <= j < final(self).rounds().len() && j != r ==> old(self).rounds().contains(
                #[trigger] final(self).rounds()[j],
            ),
            old(self).epochs().contains(epoch) ==> old(self).rounds().contains(final(self).rounds()[r as int]),
            !old(self).epochs().contains(epoch) ==> final(self).rounds()[r as int].committee() is None,
    {
        let mut j: usize = 0;
        while j < self.rounds.len() && self.rounds[j].epoch() < epoch
            invariant
                0 <= j <= self.rounds@.len(),
                forall|a: int| 0 <= a < j ==> #[trigger] self.epochs()[a] < epoch,
            decreases self.rounds.len() - j,
        {
            j += 1;
        }
        if j < self.rounds.len() && self.rounds[j].epoch() == epoch {
            proof {
                assert forall|e: u64| #[trigger] self.epochs().contains(e) <==> old(self).epochs().contains(e) || e == epoch by {
                    if e == epoch {
                        assert(self.epochs()[j as int] == epoch);
                    }
                }
            }
            return j;
        }
        let ghost old_epochs = self.epochs();
        let ghost before = self.rounds@;
        let round = DumboRound::new(epoch, self.node_id, self.quorum_info.duplicate());
        self.rounds.insert(j, round);
        proof {
            assert(self.rounds@ == before.insert(j as int, round));
            assert(self.epochs() =~= old_epochs.insert(j as int, epoch));
            if j < old_epochs.len() {
                assert(old_epochs[j as int] > epoch);
            }
            assert forall|a: int, b: int| 0 <= a < b < self.epochs().len() implies self.epochs()[a]
                < self.epochs()[b] by {
                let ea = if a < j { old_epochs[a] } else if a == j { epoch } else { old_epochs[a - 1] };
                let eb = if b < j { old_epochs[b] } else if b == j { epoch } else { old_epochs[b - 1] };
                assert(self.epochs()[a] == ea);
                assert(self.epochs()[b] == eb);
                if b > j && b - 1 > j {
                    assert(old_epochs[j as int] < old_epochs[b - 1]);
                }
                if a < j && b > j {
                    assert(old_epochs[a] < epoch);
                }
            }
            assert forall|i: int| 0 <= i < self.rounds@.len() implies {
                &&& (#[trigger] self.rounds@[i]).wf()
                &&& self.rounds@[i].self_id() == self.node_id
            } by {
                if i > j {
                    assert(self.rounds@[i] == before[i - 1]);
                }
            }
            assert forall|i: int| 0 <= i < self.epochs().len() implies self.epoch_num <= #[trigger] self.epochs()[i]
                < self.epoch_num + EPOCH_WINDOW by {
                if i > j {
                    assert(self.epochs()[i] == old_epochs[i - 1]);
                }
            }
            assert forall|e: u64| #[trigger] self.epochs().contains(e) <==> old_epochs.contains(e) || e == epoch by {
                if e == epoch {
                    assert(self.epochs()[j as int] == epoch);
                }
                if self.epochs().contains(e) && e != epoch {
                    let i = choose|i: int| 0 <= i < self.epochs().len() && self.epochs()[i] == e;
                    if i < j {
                        assert(old_epochs[i] == e);
                    } else {
                        assert(old_epochs[i - 1] == e);
                    }
                }
                if old_epochs.contains(e) {
                    let i = choose|i: int| 0 <= i < old_epochs.len() && old_epochs[i] == e;
                    if i < j {
                        assert(self.epochs()[i] == e);
                    } else {
                        assert(self.epochs()[i + 1] == e);
                    }
                }
            }
        }
        j
    }

    /// Routes a message to the epoch it names, created on first use; one for
    /// an epoch outside `[current, current + EPOCH_WINDOW)` is ignored. The
    /// messages to broadcast come back stamped with that epoch.
    pub fn process_message(
        &mut self,
        message: StoredMessage<EpochMessage<RQ, CE::Message>>,
    ) -> (r: Result<(EpochResult, Vec<EpochMessage<RQ, CE::Message>>), EpochError>)
        requires
            old(self).wf(),
        ensures
            final(self).wf(),
            final(self).current_epoch() == old(self).current_epoch(),
            (message.message.message_round < old(self).current_epoch() || message.message.message_round
                >= old(self).current_epoch() + EPOCH_WINDOW) ==> (r is Ok && r->Ok_0.0
                == EpochResult::MessageIgnored && r->Ok_0.1@.len() == 0 && final(self).epochs() == old(self).epochs()),
            message.message.message_round >= old(self).current_epoch() && message.message.message_round
                < old(self).current_epoch() + EPOCH_WINDOW ==> final(self).epochs().contains(
                message.message.message_round,
            ),
            r is Ok ==> forall|i: int| 0 <= i < r->Ok_0.1@.len() ==> (#[trigger] r->Ok_0.1@[i]).message_round
                == message.message.message_round,
            message.message.message_round >= old(self).current_epoch() && message.message.message_round
                < old(self).current_epoch() + EPOCH_WINDOW ==> exists|
                i: int,
                e0: DumboRound<CE, RQ>,
                rr: Result<(EpochResult, Vec<EpochMessageType<RQ, CE::Message>>), EpochError>,
            | #[trigger] Self::routed(old(self), message, i, e0, rr, r, final(self)),
    {
        let epoch = message.message.message_round;
        if epoch < self.epoch_num || epoch >= self.epoch_num + EPOCH_WINDOW {
            return Ok((EpochResult::MessageIgnored, Vec::new()));
        }
        let i = self.epoch_index(epoch);
        let ghost before = self.rounds@;
        let mut round = self.rounds.remove(i);
        let res = round.process_message(StoredMessage { header: message.header, message: message.message.message_type });
        self.rounds.insert(i, round);
        proof {
            assert(self.rounds@ =~= before.update(i as int, round));
            assert(self.epochs() =~= before.map_values(|r: DumboRound<CE, RQ>| r.spec_epoch()));
        }
        let ghost rr = res;
        let r = Self::stamp(epoch, res);
        proof {
            assert forall|j: int| 0 <= j < self.rounds().len() && j != i as int implies old(self).rounds().contains(
                #[trigger] self.rounds()[j],
            ) by {
                assert(self.rounds()[j] == before[j]);
            }
            assert(Self::routed(old(self), message, i as int, before[i as int], rr, r, self));
        }
        r
    }

    /// Polling stopped at epoch `k` (or ran through all, `k == len`): the
    /// epochs before `k` were polled and handed out nothing, epoch `k` handed
    /// out `pr`, which comes back stamped with its epoch as `r`, and the later
    /// epochs were not touched.
    pub open spec fn polled_at(
        old: &Self,
        new: &Self,
        k: int,
        pr: Option<StoredMessage<EpochMessageType<RQ, CE::Message>>>,
        r: Option<StoredMessage<EpochMessage<RQ, CE::Message>>>,
    ) -> bool {
        &&& 0 <= k <= old.rounds().len()
        &&& new.rounds().len() == old.rounds().len()
        &&& forall|j: int| 0 <= j < k ==> DumboRound::polls(
            &old.rounds()[j],
            None::<StoredMessage<EpochMessageType<RQ, CE::Message>>>,
            #[trigger] &new.rounds()[j],
        )
        &&& k < old.rounds().len() ==> {
            &&& DumboRound::polls(&old.rounds()[k], pr, &new.rounds()[k])
            &&& pr matches Some(m) && r == Some(StoredMessage {
                header: m.header,
                message: DumboMessage { message_round: old.rounds()[k].spec_epoch(), message_type: m.message },
            })
        }
        &&& k == old.rounds().len() ==> r is None
        &&& forall|j: int| k < j < old.rounds().len() ==> #[trigger] new.rounds()[j] == old.rounds()[j]
    }

    /// The first held-back message that some epoch can now process, looking
    /// at the epochs in order.
    pub fn poll(&mut self) -> (r: Option<StoredMessage<EpochMessage<RQ, CE::Message>>>)
        requires
            old(self).wf(),
        ensures
            final(self).wf(),
            final(self).current_epoch() == old(self).current_epoch(),
            final(self).epochs() == old(self).epochs(),
            r matches Some(m) ==> final(self).epochs().contains(m.message.message_round),
            exists|k: int, pr: Option<StoredMessage<EpochMessageType<RQ, CE::Message>>>|
                #[trigger] Self::polled_at(old(self), final(self), k, pr, r),
    {
        let mut i: usize = 0;
        while i < self.rounds.len()
            invariant
                self.wf(),
                0 <= i <= self.rounds@.len(),
                self.current_epoch() == old(self).current_epoch(),
                self.epochs() == old(self).epochs(),
                self.rounds().len() == old(self).rounds().len(),
                forall|j: int| 0 <= j < i ==> DumboRound::polls(
                    &old(self).rounds()[j],
                    None::<StoredMessage<EpochMessageType<RQ, CE::Message>>>,
                    #[trigger] &self.rounds()[j],
                ),
                forall|j: int| i <= j < self.rounds().len() ==> #[trigger] self.rounds()[j] == old(self).rounds()[j],
            decreases self.rounds.len() - i,
        {
            let ghost before = self.rounds@;
            let mut round = self.rounds.remove(i);
            let epoch = round.epoch();
            let polled = round.poll();
            self.rounds.insert(i, round);
            proof {
                assert(self.rounds@ =~= before.update(i as int, round));
                assert(self.epochs() =~= before.map_values(|r: DumboRound<CE, RQ>| r.spec_epoch()));
                assert forall|j: int| 0 <= j < self.rounds@.len() implies {
                    &&& (#[trigger] self.rounds@[j]).wf()
                    &&& self.rounds@[j].self_id() == self.node_id
                } by {
                    if j != i as int {
                        assert(self.rounds@[j] == before[j]);
                    }
                }
            }
            match polled {
                Some(m) => {
                    assert(self.epochs()[i as int] == epoch);
                    let r = Some(StoredMessage { header: m.header, message: DumboMessage::new(epoch, m.message) });
                    assert(Self::polled_at(old(self), self, i as int, polled, r));
                    return r;
                },
                None => {},
            }
            i += 1;
        }
        assert(Self::polled_at(old(self), self, i as int, None, None));
        None
    }

    /// Suspends (`false`) or resumes (`true`) the emission of outputs.
    pub fn handle_execution_changed(&mut self, is_executing: bool)
        requires
            old(self).wf(),
        ensures
            final(self).wf(),
            final(self).executing() == is_executing,
            final(self).current_epoch() == old(self).current_epoch(),
            final(self).epochs() == old(self).epochs(),
    {
        let ghost before = *self;
        self.is_executing = is_executing;
        assert(self.rounds@ == before.rounds@);
        assert(self.epochs() == before.epochs());
    }

    pub fn is_executing(&self) -> (r: bool)
        ensures
            r == self.executing(),
    {
        self.is_executing
    }

    /// Hands a message to its epoch only if that epoch is already held;
    /// never creates an epoch nor moves the current one.
    pub fn handle_off_ctx_message(
        &mut self,
        message: StoredMessage<EpochMessage<RQ, CE::Message>>,
    ) -> (r: Result<(EpochResult, Vec<EpochMessage<RQ, CE::Message>>), EpochError>)
        requires
            old(self).wf(),
        ensures
            final(self).wf(),
            final(self).current_epoch() == old(self).current_epoch(),
            final(self).epochs() == old(self).epochs(),
            !old(self).epochs().contains(message.message.message_round) ==> (r is Ok && r->Ok_0.0
                == EpochResult::MessageIgnored && r->Ok_0.1@.len() == 0 && final(self).rounds() == old(self).rounds()),
            old(self).epochs().contains(message.message.message_round) ==> exists|
                i: int,
                e0: DumboRound<CE, RQ>,
                rr: Result<(EpochResult, Vec<EpochMessageType<RQ, CE::Message>>), EpochError>,
            | #[trigger] Self::routed(old(self), message, i, e0, rr, r, final(self)),
    {
        let epoch = message.message.message_round;
        let mut i: usize = 0;
        while i < self.rounds.len() && self.rounds[i].epoch() != epoch
            invariant
                0 <= i <= self.rounds@.len(),
                forall|j: int| 0 <= j < i ==> #[trigger] self.epochs()[j] != epoch,
            decreases self.rounds.len() - i,
        {
            i += 1;
        }
        if i == self.rounds.len() {
            return Ok((EpochResult::MessageIgnored, Vec::new()));
        }
        assert(self.epochs()[i as int] == epoch);
        let ghost before = self.rounds@;
        let mut round = self.rounds.remove(i);
        let res = round.process_message(StoredMessage { header: message.header, message: message.message.message_type });
        self.rounds.insert(i, round);
        proof {
            assert(self.rounds@ =~= before.update(i as int, round));
            assert(self.epochs() =~= before.map_values(|r: DumboRound<CE, RQ>| r.spec_epoch()));
            assert forall|j: int| 0 <= j < self.rounds@.len() implies {
                &&& (#[trigger] self.rounds@[j]).wf()
                &&& self.rounds@[j].self_id() == self.node_id
            } by {
                if j != i as int {
                    assert(self.rounds@[j] == before[j]);
                }
            }
        }
        let ghost rr = res;
        let r = Self::stamp(epoch, res);
        proof {
            assert forall|j: int| 0 <= j < self.rounds().len() && j != i as int implies old(self).rounds().contains(
                #[trigger] self.rounds()[j],
            ) by {
                assert(self.rounds()[j] == before[j]);
            }
            assert(old(self).rounds()[i as int] == before[i as int]);
            assert(Self::routed(old(self), message, i as int, before[i as int], rr, r, self));
        }
        r
    }

    /// Stamps every outgoing message of an epoch's outcome with the epoch.
    fn stamp(
        epoch: u64,
        res: Result<(EpochResult, Vec<EpochMessageType<RQ, CE::Message>>), EpochError>,
    ) -> (r: Result<(EpochResult, Vec<EpochMessage<RQ, CE::Message>>), EpochError>)
        ensures
            Self::stamped(epoch, res, r),
    {
        match res {
            Err(e) => Err(e),
            Ok((result, sent)) => {
                let ghost all = sent@;
                let mut out: Vec<EpochMessage<RQ, CE::Message>> = Vec::new();
                let mut sent = sent;
                while sent.len() > 0
                    invariant
                        out@.len() + sent@.len() == all.len(),
                        forall|k: int| 0 <= k < out@.len() ==> #[trigger] out@[k] == (DumboMessage {
                            message_round: epoch,
                            message_type: all[k],
                        }),
                        forall|k: int| 0 <= k < sent@.len() ==> #[trigger] sent@[k] == all[out@.len() + k],
                    decreases sent.len(),
                {
                    let ghost before = sent@;
                    let m = sent.remove(0);
                    assert(m == all[out@.len() as int]);
                    out.push(DumboMessage::new(epoch, m));
                    assert forall|k: int| 0 <= k < sent@.len() implies #[trigger] sent@[k] == all[out@.len() + k] by {
                        assert(sent@[k] == before[k + 1]);
                    }
                }
                Ok((result, out))
            },
        }
    }
}

} // verus!
