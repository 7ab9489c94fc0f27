use vstd::prelude::*;
use threshold_crypto::{PublicKeySet, SignatureShare};
use crate::aba_messages::BoolSet;
use crate::coin::{coin_of, flip_coin};
use crate::node::{NodeId, NodeSet};

verus! {

/// The phases of one round, in the order they are reached.
#[derive(Clone, Copy, Debug, PartialEq, Eq, Structural, Hash)]
pub enum AsyncBinaryAgreementState {
    CollectingVal,
    CollectingAux,
    CollectingConf,
    Finishing,
}

/// Position of a phase in `CollectingVal -> CollectingAux -> CollectingConf -> Finishing`.
pub open spec fn round_phase_rank(s: AsyncBinaryAgreementState) -> nat {
    match s {
        AsyncBinaryAgreementState::CollectingVal => 0,
        AsyncBinaryAgreementState::CollectingAux => 1,
        AsyncBinaryAgreementState::CollectingConf => 2,
        AsyncBinaryAgreementState::Finishing => 3,
    }
}

/// What a round did with one vote.
#[derive(Clone, Copy, Debug, PartialEq, Eq, Structural)]
pub enum RoundDataVoteAcceptResult {
    Accepted,
    BroadcastEst(bool),
    BroadcastAux(BoolSet),
    BroadcastConf(BoolSet),
    BroadcastFinalized(bool),
    Ignored,
    AlreadyAccepted,
    Queue,
    /// The round failed; the next one starts with this estimate.
    Failed(bool),
    /// The round decided this value.
    Finalized(bool),
}

/// The abstract state of a round: the votes seen, by value, and what we have
/// sent.
pub struct RoundView {
    pub phase: AsyncBinaryAgreementState,
    pub f: nat,
    pub estimate: bool,
    pub values_r: BoolSet,
    pub vals: Map<bool, Set<NodeId>>,
    pub broadcast_vals: BoolSet,
    pub aux: Map<BoolSet, Set<NodeId>>,
    pub conf: Map<BoolSet, Set<NodeId>>,
    pub finish: Map<bool, Set<NodeId>>,
    pub broadcast_finish: BoolSet,
    /// The value this round decided, once `2f + 1` `Finish` votes agreed.
    pub decided: Option<bool>,
}

/// A `Val(b)` from `sender`: counted while collecting values; `f + 1` votes
/// make us relay `b` once, `2f + 1` add `b` to the accepted values and move to
/// collecting auxiliaries.
pub open spec fn val_step(v: RoundView, sender: NodeId, b: bool) -> (RoundDataVoteAcceptResult, RoundView) {
    if v.phase != AsyncBinaryAgreementState::CollectingVal {
        (RoundDataVoteAcceptResult::Ignored, v)
    } else if v.vals[b].contains(sender) {
        (RoundDataVoteAcceptResult::AlreadyAccepted, v)
    } else {
        let votes = v.vals[b].insert(sender);
        let v1 = RoundView { vals: v.vals.insert(b, votes), ..v };
        if votes.len() >= 2 * v.f + 1 {
            let values = v.values_r.with(b);
            (
                RoundDataVoteAcceptResult::BroadcastAux(values),
                RoundView { values_r: values, phase: AsyncBinaryAgreementState::CollectingAux, ..v1 },
            )
        } else if votes.len() >= v.f + 1 && !v.broadcast_vals.has(b) {
            (
                RoundDataVoteAcceptResult::BroadcastEst(b),
                RoundView { broadcast_vals: v.broadcast_vals.with(b), ..v1 },
            )
        } else {
            (RoundDataVoteAcceptResult::Accepted, v1)
        }
    }
}

/// An `Aux(s)` from `sender`: queued before, ignored after collecting
/// auxiliaries; `2f + 1` votes for an `s` within the accepted values move to
/// collecting confirmations.
pub open spec fn aux_step(v: RoundView, sender: NodeId, s: BoolSet) -> (RoundDataVoteAcceptResult, RoundView) {
    if v.phase == AsyncBinaryAgreementState::CollectingVal {
        (RoundDataVoteAcceptResult::Queue, v)
    } else if v.phase != AsyncBinaryAgreementState::CollectingAux {
        (RoundDataVoteAcceptResult::Ignored, v)
    } else if v.aux[s].contains(sender) {
        (RoundDataVoteAcceptResult::AlreadyAccepted, v)
    } else {
        let votes = v.aux[s].insert(sender);
        let v1 = RoundView { aux: v.aux.insert(s, votes), ..v };
        if votes.len() >= 2 * v.f + 1 && s.subset_of(v.values_r) {
            (
                RoundDataVoteAcceptResult::BroadcastConf(v.values_r),
                RoundView { phase: AsyncBinaryAgreementState::CollectingConf, ..v1 },
            )
        } else {
            (RoundDataVoteAcceptResult::Accepted, v1)
        }
    }
}

/// What the common coin decides once `2f + 1` confirmations agree on `s`.
/// `None` is a coin that could not be drawn: the round fails keeping its
/// estimate. With `|s| != 1` the round fails with the coin as next estimate;
/// with `s = {w}` it finishes on `w` when the coin is `w` (announcing `Finish`
/// once), and fails with `w` otherwise.
pub open spec fn coin_step(v: RoundView, s: BoolSet, coin: Option<bool>) -> (RoundDataVoteAcceptResult, RoundView) {
    match coin {
        None => (RoundDataVoteAcceptResult::Failed(v.estimate), v),
        Some(c) => if s.size() != 1 {
            (RoundDataVoteAcceptResult::Failed(c), v)
        } else {
            let w = s.has_true;
            if w == c {
                let v2 = RoundView { phase: AsyncBinaryAgreementState::Finishing, estimate: c, ..v };
                if !v.broadcast_finish.has(c) {
                    (
                        RoundDataVoteAcceptResult::BroadcastFinalized(c),
                        RoundView { broadcast_finish: v.broadcast_finish.with(c), ..v2 },
                    )
                } else {
                    (RoundDataVoteAcceptResult::Accepted, v2)
                }
            } else {
                (RoundDataVoteAcceptResult::Failed(w), v)
            }
        },
    }
}

/// A `Conf(s)` from `sender`: queued before, ignored after collecting
/// confirmations; `2f + 1` signers of an `s` within the accepted values draw
/// the coin.
pub open spec fn conf_step(v: RoundView, sender: NodeId, s: BoolSet, coin: Option<bool>) -> (
    RoundDataVoteAcceptResult,
    RoundView,
) {
    if v.phase == AsyncBinaryAgreementState::CollectingVal || v.phase
        == AsyncBinaryAgreementState::CollectingAux {
        (RoundDataVoteAcceptResult::Queue, v)
    } else if v.phase == AsyncBinaryAgreementState::Finishing {
        (RoundDataVoteAcceptResult::Ignored, v)
    } else if v.conf[s].contains(sender) {
        (RoundDataVoteAcceptResult::AlreadyAccepted, v)
    } else {
        let votes = v.conf[s].insert(sender);
        let v1 = RoundView { conf: v.conf.insert(s, votes), ..v };
        if votes.len() >= 2 * v.f + 1 && s.subset_of(v.values_r) {
            coin_step(v1, s, coin)
        } else {
            (RoundDataVoteAcceptResult::Accepted, v1)
        }
    }
}

/// Whether a confirmation of `s` from `sender` gets its share recorded: only
/// while collecting confirmations, and once per signer and set.
pub open spec fn records_share(v: RoundView, sender: NodeId, s: BoolSet) -> bool {
    v.phase == AsyncBinaryAgreementState::CollectingConf && !v.conf[s].contains(sender)
}

/// A `Finish(b)` from `sender`: queued until finishing; `f + 1` votes make us
/// relay `b` once, `2f + 1` decide `b`. Once decided, every further `Finish`
/// is `AlreadyAccepted`: a round decides at most once.
pub open spec fn finish_step(v: RoundView, sender: NodeId, b: bool) -> (RoundDataVoteAcceptResult, RoundView) {
    if v.phase != AsyncBinaryAgreementState::Finishing {
        (RoundDataVoteAcceptResult::Queue, v)
    } else if v.decided is Some || v.finish[b].contains(sender) {
        (RoundDataVoteAcceptResult::AlreadyAccepted, v)
    } else {
        let votes = v.finish[b].insert(sender);
        let v1 = RoundView { finish: v.finish.insert(b, votes), ..v };
        if votes.len() >= 2 * v.f + 1 {
            (RoundDataVoteAcceptResult::Finalized(b), RoundView { decided: Some(b), ..v1 })
        } else if votes.len() >= v.f + 1 && !v.broadcast_finish.has(b) {
            (
                RoundDataVoteAcceptResult::BroadcastFinalized(b),
                RoundView { broadcast_finish: v.broadcast_finish.with(b), ..v1 },
            )
        } else {
            (RoundDataVoteAcceptResult::Accepted, v1)
        }
    }
}

/// The votes on one binary value, for each value.
struct BinaryVotes {
    for_false: NodeSet,
    for_true: NodeSet,
}

impl BinaryVotes {
    closed spec fn wf(&self) -> bool {
        self.for_false.wf() && self.for_true.wf()
    }

    closed spec fn votes(&self, b: bool) -> Set<NodeId> {
        if b { self.for_true@ } else { self.for_false@ }
    }

    closed spec fn as_map(&self) -> Map<bool, Set<NodeId>> {
        Map::new(|b: bool| true, |b: bool| self.votes(b))
    }

    fn new() -> (r: BinaryVotes)
        ensures
            r.wf(),
            forall|b: bool| r.votes(b) == Set::<NodeId>::empty(),
    {
        BinaryVotes { for_false: NodeSet::new(), for_true: NodeSet::new() }
    }

    /// Records `sender`'s vote for `value`; the new count, or `Err` for a
    /// repeated vote.
    fn insert(&mut self, sender: NodeId, value: bool) -> (r: Result<usize, ()>)
        requires
            old(self).wf(),
        ensures
            final(self).wf(),
            old(self).votes(value).contains(sender) ==> r is Err && final(self).as_map()
                == old(self).as_map(),
            !old(self).votes(value).contains(sender) ==> r is Ok && r->Ok_0 == final(self).votes(value).len() && final(self).as_map() == old(self).as_map().insert(
                value,
                old(self).votes(value).insert(sender),
            ),
    {
        let inserted = if value {
            self.for_true.insert(sender)
        } else {
            self.for_false.insert(sender)
        };
        let r = if inserted {
            Ok(if value { self.for_true.len() } else { self.for_false.len() })
        } else {
            Err(())
        };
        assert(self.as_map() =~= old(self).as_map().insert(value, old(self).votes(value).insert(sender)));
        if !inserted {
            assert(old(self).votes(value).insert(sender) =~= old(self).votes(value));
            assert(self.as_map() =~= old(self).as_map());
        }
        r
    }
}

/// The `Aux` votes, for each of the four subsets of `{false, true}`.
struct AuxRoundData {
    for_none: NodeSet,
    for_false: NodeSet,
    for_true: NodeSet,
    for_both: NodeSet,
}

impl AuxRoundData {
    closed spec fn wf(&self) -> bool {
        self.for_none.wf() && self.for_false.wf() && self.for_true.wf() && self.for_both.wf()
    }

    closed spec fn votes(&self, s: BoolSet) -> Set<NodeId> {
        if s.has_false {
            if s.has_true { self.for_both@ } else { self.for_false@ }
        } else {
            if s.has_true { self.for_true@ } else { self.for_none@ }
        }
    }

    closed spec fn as_map(&self) -> Map<BoolSet, Set<NodeId>> {
        Map::new(|s: BoolSet| true, |s: BoolSet| self.votes(s))
    }

    fn new() -> (r: AuxRoundData)
        ensures
            r.wf(),
            forall|s: BoolSet| r.votes(s) == Set::<NodeId>::empty(),
    {
        AuxRoundData {
            for_none: NodeSet::new(),
            for_false: NodeSet::new(),
            for_true: NodeSet::new(),
            for_both: NodeSet::new(),
        }
    }

    /// Records `sender`'s vote for `accepted`; the new count, or `Err` for a
    /// repeated vote.
    fn insert_aux(&mut self, sender: NodeId, accepted: BoolSet) -> (r: Result<usize, ()>)
        requires
            old(self).wf(),
        ensures
            final(self).wf(),
            old(self).votes(accepted).contains(sender) ==> r is Err && final(self).as_map()
                == old(self).as_map(),
            !old(self).votes(accepted).contains(sender) ==> r is Ok && r->Ok_0 == final(self).votes(accepted).len() && final(self).as_map() == old(self).as_map().insert(
                accepted,
                old(self).votes(accepted).insert(sender),
            ),
    {
        let set = if accepted.has_false {
            if accepted.has_true { &mut self.for_both } else { &mut self.for_false }
        } else {
            if accepted.has_true { &mut self.for_true } else { &mut self.for_none }
        };
        let inserted = set.insert(sender);
        let count = set.len();
        proof {
            assert forall|s: BoolSet| #[trigger] self.votes(s) == (if s == accepted {
                old(self).votes(accepted).insert(sender)
            } else {
                old(self).votes(s)
            }) by {}
            assert(self.as_map() =~= old(self).as_map().insert(accepted, old(self).votes(accepted).insert(sender)));
            if !inserted {
                assert(old(self).votes(accepted).insert(sender) =~= old(self).votes(accepted));
                assert(self.as_map() =~= old(self).as_map());
            }
        }
        if inserted { Ok(count) } else { Err(()) }
    }
}

/// The signature shares sent with `Conf` votes for one subset, at most one
/// per signer.
struct ConfVotes {
    entries: Vec<(NodeId, SignatureShare)>,
}

impl ConfVotes {
    closed spec fn ids(&self) -> Seq<NodeId> {
        self.entries@.map_values(|e: (NodeId, SignatureShare)| e.0)
    }

    closed spec fn wf(&self) -> bool {
        self.ids().no_duplicates()
    }

    closed spec fn signers(&self) -> Set<NodeId> {
        self.ids().to_set()
    }

    fn new() -> (r: ConfVotes)
        ensures
            r.wf(),
            r.entries@ == Seq::<(NodeId, SignatureShare)>::empty(),
            r.signers() == Set::<NodeId>::empty(),
    {
        let r = ConfVotes { entries: Vec::new() };
        assert(r.ids() =~= Seq::<NodeId>::empty());
        assert(r.signers() =~= Set::<NodeId>::empty());
        r
    }

    fn contains(&self, id: NodeId) -> (r: bool)
        ensures
            r == self.signers().contains(id),
    {
        let mut i: usize = 0;
        while i < self.entries.len()
            invariant
                0 <= i <= self.entries.len(),
                forall|j: int| 0 <= j < i ==> self.ids()[j] != id,
            decreases self.entries.len() - i,
        {
            if self.entries[i].0 == id {
                assert(self.ids()[i as int] == id);
                assert(self.ids().contains(id));
                return true;
            }
            i += 1;
        }
        assert(!self.ids().contains(id));
        false
    }

    /// Records `sender`'s share; the new number of signers, or `Err` when
    /// `sender` has signed already.
    fn insert(&mut self, sender: NodeId, share: SignatureShare) -> (r: Result<usize, ()>)
        requires
            old(self).wf(),
        ensures
            final(self).wf(),
            old(self).signers().contains(sender) ==> r is Err && final(self).signers() == old(self).signers(),
            !old(self).signers().contains(sender) ==> r is Ok && r->Ok_0 == final(self).signers().len()
                && final(self).signers() == old(self).signers().insert(sender),
            old(self).signers().contains(sender) ==> final(self).entries@ == old(self).entries@,
            !old(self).signers().contains(sender) ==> final(self).entries@ == old(self).entries@.push((sender, share)),
    {
        if self.contains(sender) {
            return Err(());
        }
        let ghost before = self.ids();
        self.entries.push((sender, share));
        proof {
            assert(self.ids() =~= before.push(sender));
            before.lemma_push_to_set_commute(sender);
            assert(self.ids().no_duplicates()) by {
                assert forall|a: int, b: int|
                    0 <= a < self.ids().len() && 0 <= b < self.ids().len() && a != b
                    implies self.ids()[a] != self.ids()[b] by {
                    if a == before.len() as int {
                        assert(before.contains(self.ids()[b]));
                    } else if b == before.len() as int {
                        assert(before.contains(self.ids()[a]));
                    }
                }
            }
            self.ids().unique_seq_to_set();
        }
        Ok(self.entries.len())
    }
}

/// The `Conf` votes, for each of the four subsets of `{false, true}`.
struct ConfRoundData {
    for_none: ConfVotes,
    for_false: ConfVotes,
    for_true: ConfVotes,
    for_both: ConfVotes,
}

impl ConfRoundData {
    closed spec fn wf(&self) -> bool {
        self.for_none.wf() && self.for_false.wf() && self.for_true.wf() && self.for_both.wf()
    }

    closed spec fn signers(&self, s: BoolSet) -> Set<NodeId> {
        if s.has_false {
            if s.has_true { self.for_both.signers() } else { self.for_false.signers() }
        } else {
            if s.has_true { self.for_true.signers() } else { self.for_none.signers() }
        }
    }

    closed spec fn as_map(&self) -> Map<BoolSet, Set<NodeId>> {
        Map::new(|s: BoolSet| true, |s: BoolSet| self.signers(s))
    }

    closed spec fn shares(&self, s: BoolSet) -> Seq<(NodeId, SignatureShare)> {
        if s.has_false {
            if s.has_true { self.for_both.entries@ } else { self.for_false.entries@ }
        } else {
            if s.has_true { self.for_true.entries@ } else { self.for_none.entries@ }
        }
    }

    fn new() -> (r: ConfRoundData)
        ensures
            r.wf(),
            forall|s: BoolSet| r.signers(s) == Set::<NodeId>::empty(),
            forall|s: BoolSet| #[trigger] r.shares(s) == Seq::<(NodeId, SignatureShare)>::empty(),
    {
        ConfRoundData {
            for_none: ConfVotes::new(),
            for_false: ConfVotes::new(),
            for_true: ConfVotes::new(),
            for_both: ConfVotes::new(),
        }
    }

    /// Records `sender`'s confirmation of `feasible` with its share; the new
    /// number of signers, or `Err` for a repeated vote.
    fn insert_confirmation(
        &mut self,
        sender: NodeId,
        feasible: BoolSet,
        partial_signature: SignatureShare,
    ) -> (r: Result<usize, ()>)
        requires
            old(self).wf(),
        ensures
            final(self).wf(),
            old(self).signers(feasible).contains(sender) ==> r is Err && final(self).as_map()
                == old(self).as_map(),
            !old(self).signers(feasible).contains(sender) ==> r is Ok && r->Ok_0 == final(self).signers(feasible).len() && final(self).as_map() == old(self).as_map().insert(
                feasible,
                old(self).signers(feasible).insert(sender),
            ),
            !old(self).signers(feasible).contains(sender) ==> final(self).shares(feasible) == old(self).shares(feasible).push((sender, partial_signature)),
            old(self).signers(feasible).contains(sender) ==> final(self).shares(feasible) == old(self).shares(feasible),
            forall|s: BoolSet| s != feasible ==> #[trigger] final(self).shares(s) == old(self).shares(s),
    {
        let votes = if feasible.has_false {
            if feasible.has_true { &mut self.for_both } else { &mut self.for_false }
        } else {
            if feasible.has_true { &mut self.for_true } else { &mut self.for_none }
        };
        let r = votes.insert(sender, partial_signature);
        proof {
            assert forall|s: BoolSet| #[trigger] self.signers(s) == (if s == feasible {
                old(self).signers(feasible).insert(sender)
            } else {
                old(self).signers(s)
            }) by {
                if s == feasible && r is Err {
                    assert(old(self).signers(feasible).insert(sender) =~= old(self).signers(feasible));
                }
            }
            assert(self.as_map() =~= old(self).as_map().insert(feasible, old(self).signers(feasible).insert(sender)));
            if r is Err {
                assert(old(self).signers(feasible).insert(sender) =~= old(self).signers(feasible));
                assert(self.as_map() =~= old(self).as_map());
            }
        }
        r
    }

    /// The shares received with confirmations of `values`, each with its signer.
    fn get_signatures_for_values(&self, values: BoolSet) -> (r: &Vec<(NodeId, SignatureShare)>)
        ensures
            r@ == self.shares(values),
    {
        let votes = if values.has_false {
            if values.has_true { &self.for_both } else { &self.for_false }
        } else {
            if values.has_true { &self.for_true } else { &self.for_none }
        };
        &votes.entries
    }
}

/// The state of one round of binary agreement.
pub struct RoundData {
    state: AsyncBinaryAgreementState,
    f: usize,
    pub_key: PublicKeySet,
    estimate: bool,
    values_r: BoolSet,
    val_data: BinaryVotes,
    broadcast_estimates: BoolSet,
    aux_round_data: AuxRoundData,
    conf_round_data: ConfRoundData,
    finish_round_data: BinaryVotes,
    broadcast_finish: BoolSet,
    decided: Option<bool>,
}

impl View for RoundData {
    type V = RoundView;

    closed spec fn view(&self) -> RoundView {
        RoundView {
            phase: self.state,
            f: self.f as nat,
            estimate: self.estimate,
            values_r: self.values_r,
            vals: self.val_data.as_map(),
            broadcast_vals: self.broadcast_estimates,
            aux: self.aux_round_data.as_map(),
            conf: self.conf_round_data.as_map(),
            finish: self.finish_round_data.as_map(),
            broadcast_finish: self.broadcast_finish,
            decided: self.decided,
        }
    }
}

/// A round before any vote.
pub open spec fn fresh_round(f: nat, estimate: bool) -> RoundView {
    RoundView {
        phase: AsyncBinaryAgreementState::CollectingVal,
        f,
        estimate,
        values_r: BoolSet::empty_spec(),
        vals: Map::new(|b: bool| true, |b: bool| Set::<NodeId>::empty()),
        broadcast_vals: BoolSet::empty_spec(),
        aux: Map::new(|s: BoolSet| true, |s: BoolSet| Set::<NodeId>::empty()),
        conf: Map::new(|s: BoolSet| true, |s: BoolSet| Set::<NodeId>::empty()),
        finish: Map::new(|b: bool| true, |b: bool| Set::<NodeId>::empty()),
        broadcast_finish: BoolSet::empty_spec(),
        decided: None,
    }
}

impl RoundData {
    pub closed spec fn wf(&self) -> bool {
        &&& 3 * self.f + 1 <= usize::MAX
        &&& self.val_data.wf()
        &&& self.aux_round_data.wf()
        &&& self.conf_round_data.wf()
        &&& self.finish_round_data.wf()
    }

    /// The signature shares recorded with the confirmations of `s`, in
    /// arrival order.
    pub closed spec fn shares_for(&self, s: BoolSet) -> Seq<(NodeId, SignatureShare)> {
        self.conf_round_data.shares(s)
    }

    /// The threshold keys the coin is checked against.
    pub closed spec fn keys(&self) -> PublicKeySet {
        self.pub_key
    }

    pub fn new(f: usize, pub_key_set: PublicKeySet, estimate: bool) -> (r: Self)
        requires
            3 * f + 1 <= usize::MAX,
        ensures
            r.wf(),
            r@ == fresh_round(f as nat, estimate),
            r.keys() == pub_key_set,
            forall|s: BoolSet| #[trigger] r.shares_for(s) == Seq::<(NodeId, SignatureShare)>::empty(),
    {
        let r = RoundData {
            state: AsyncBinaryAgreementState::CollectingVal,
            f,
            pub_key: pub_key_set,
            estimate,
            values_r: BoolSet::empty(),
            val_data: BinaryVotes::new(),
            broadcast_estimates: BoolSet::empty(),
            aux_round_data: AuxRoundData::new(),
            conf_round_data: ConfRoundData::new(),
            finish_round_data: BinaryVotes::new(),
            broadcast_finish: BoolSet::empty(),
            decided: None,
        };
        assert(r@.vals =~= fresh_round(f as nat, estimate).vals);
        assert(r@.aux =~= fresh_round(f as nat, estimate).aux);
        assert(r@.conf =~= fresh_round(f as nat, estimate).conf);
        assert(r@.finish =~= fresh_round(f as nat, estimate).finish);
        r
    }

    pub fn state(&self) -> (r: AsyncBinaryAgreementState)
        ensures
            r == self@.phase,
    {
        self.state
    }

    pub fn estimate(&self) -> (r: bool)
        ensures
            r == self@.estimate,
    {
        self.estimate
    }

    pub fn values(&self) -> (r: BoolSet)
        ensures
            r == self@.values_r,
    {
        self.values_r
    }

    pub fn accept_estimate(&mut self, sender: NodeId, estimate: bool) -> (r: RoundDataVoteAcceptResult)
        requires
            old(self).wf(),
        ensures
            final(self).wf(),
            forall|s: BoolSet| #[trigger] final(self).shares_for(s) == old(self).shares_for(s),
            final(self).keys() == old(self).keys(),
            (r, final(self)@) == val_step(old(self)@, sender, estimate),
    {
        match self.state {
            AsyncBinaryAgreementState::CollectingVal => self.insert_estimate(sender, estimate),
            _ => RoundDataVoteAcceptResult::Ignored,
        }
    }

    fn insert_estimate(&mut self, sender: NodeId, estimate: bool) -> (r: RoundDataVoteAcceptResult)
        requires
            old(self).wf(),
            old(self)@.phase == AsyncBinaryAgreementState::CollectingVal,
        ensures
            final(self).wf(),
            forall|s: BoolSet| #[trigger] final(self).shares_for(s) == old(self).shares_for(s),
            final(self).keys() == old(self).keys(),
            (r, final(self)@) == val_step(old(self)@, sender, estimate),
    {
        assert(old(self)@.vals[estimate] == old(self).val_data.votes(estimate));
        let current_votes = match self.val_data.insert(sender, estimate) {
            Ok(current_votes) => current_votes,
            Err(_) => {
                assert(self@ == old(self)@);
                return RoundDataVoteAcceptResult::AlreadyAccepted;
            },
        };
        assert(self.val_data.votes(estimate) == self@.vals[estimate]);
        assert(current_votes == old(self)@.vals[estimate].insert(sender).len());
        if current_votes >= 2 * self.f + 1 {
            self.values_r = if estimate {
                BoolSet { has_false: self.values_r.has_false, has_true: true }
            } else {
                BoolSet { has_false: true, has_true: self.values_r.has_true }
            };
            self.state = AsyncBinaryAgreementState::CollectingAux;
            return RoundDataVoteAcceptResult::BroadcastAux(self.values_r);
        }
        if current_votes >= self.f + 1 && !self.broadcast_estimates.contains(estimate) {
            self.broadcast_estimates = if estimate {
                BoolSet { has_false: self.broadcast_estimates.has_false, has_true: true }
            } else {
                BoolSet { has_false: true, has_true: self.broadcast_estimates.has_true }
            };
            return RoundDataVoteAcceptResult::BroadcastEst(estimate);
        }
        RoundDataVoteAcceptResult::Accepted
    }

    pub fn accept_auxiliary(&mut self, sender: NodeId, accepted_estimates: BoolSet) -> (r: RoundDataVoteAcceptResult)
        requires
            old(self).wf(),
        ensures
            final(self).wf(),
            forall|s: BoolSet| #[trigger] final(self).shares_for(s) == old(self).shares_for(s),
            final(self).keys() == old(self).keys(),
            (r, final(self)@) == aux_step(old(self)@, sender, accepted_estimates),
    {
        match self.state {
            AsyncBinaryAgreementState::CollectingAux => self.insert_aux(sender, accepted_estimates),
            AsyncBinaryAgreementState::CollectingVal => RoundDataVoteAcceptResult::Queue,
            AsyncBinaryAgreementState::Finishing | AsyncBinaryAgreementState::CollectingConf => {
                RoundDataVoteAcceptResult::Ignored
            },
        }
    }

    fn insert_aux(&mut self, sender: NodeId, accepted_estimates: BoolSet) -> (r: RoundDataVoteAcceptResult)
        requires
            old(self).wf(),
            old(self)@.phase == AsyncBinaryAgreementState::CollectingAux,
        ensures
            final(self).wf(),
            forall|s: BoolSet| #[trigger] final(self).shares_for(s) == old(self).shares_for(s),
            final(self).keys() == old(self).keys(),
            (r, final(self)@) == aux_step(old(self)@, sender, accepted_estimates),
    {
        assert(old(self)@.aux[accepted_estimates] == old(self).aux_round_data.votes(accepted_estimates));
        let vote_count = match self.aux_round_data.insert_aux(sender, accepted_estimates) {
            Ok(votes) => votes,
            Err(_) => {
                assert(self@ == old(self)@);
                return RoundDataVoteAcceptResult::AlreadyAccepted;
            },
        };
        assert(self.aux_round_data.votes(accepted_estimates) == self@.aux[accepted_estimates]);
        assert(vote_count == old(self)@.aux[accepted_estimates].insert(sender).len());
        if vote_count >= 2 * self.f + 1 && accepted_estimates.is_subset(&self.values_r) {
            self.state = AsyncBinaryAgreementState::CollectingConf;
            return RoundDataVoteAcceptResult::BroadcastConf(self.values_r);
        }
        RoundDataVoteAcceptResult::Accepted
    }

    /// Handles a `Conf` vote. When it completes a quorum the coin is drawn
    /// from the collected shares, and the round goes as `coin_step` says for
    /// whatever coin came out.
    pub fn accept_confirmation(
        &mut self,
        sender: NodeId,
        feasible_values: BoolSet,
        signature: SignatureShare,
    ) -> (r: RoundDataVoteAcceptResult)
        requires
            old(self).wf(),
        ensures
            final(self).wf(),
            forall|s: BoolSet| #[trigger] final(self).shares_for(s) == if s == feasible_values && records_share(
                old(self)@,
                sender,
                feasible_values,
            ) {
                old(self).shares_for(feasible_values).push((sender, signature))
            } else {
                old(self).shares_for(s)
            },
            final(self).keys() == old(self).keys(),
            (r, final(self)@) == conf_step(
                old(self)@,
                sender,
                feasible_values,
                coin_of(old(self).keys(), old(self).shares_for(feasible_values).push((sender, signature))),
            ),
    {
        match self.state {
            AsyncBinaryAgreementState::CollectingConf => {
                self.insert_confirmation(sender, feasible_values, signature)
            },
            AsyncBinaryAgreementState::CollectingAux | AsyncBinaryAgreementState::CollectingVal => {
                assert((RoundDataVoteAcceptResult::Queue, self@) == conf_step(old(self)@, sender, feasible_values, None));
                RoundDataVoteAcceptResult::Queue
            },
            AsyncBinaryAgreementState::Finishing => {
                assert((RoundDataVoteAcceptResult::Ignored, self@) == conf_step(old(self)@, sender, feasible_values, None));
                RoundDataVoteAcceptResult::Ignored
            },
        }
    }

    fn insert_confirmation(
        &mut self,
        sender: NodeId,
        feasible_values: BoolSet,
        partial_signature: SignatureShare,
    ) -> (r: RoundDataVoteAcceptResult)
        requires
            old(self).wf(),
            old(self)@.phase == AsyncBinaryAgreementState::CollectingConf,
        ensures
            final(self).wf(),
            forall|s: BoolSet| #[trigger] final(self).shares_for(s) == if s == feasible_values && records_share(
                old(self)@,
                sender,
                feasible_values,
            ) {
                old(self).shares_for(feasible_values).push((sender, partial_signature))
            } else {
                old(self).shares_for(s)
            },
            final(self).keys() == old(self).keys(),
            (r, final(self)@) == conf_step(
                old(self)@,
                sender,
                feasible_values,
                coin_of(old(self).keys(), old(self).shares_for(feasible_values).push((sender, partial_signature))),
            ),
    {
        assert(old(self)@.conf[feasible_values] == old(self).conf_round_data.signers(feasible_values));
        let vote_count = match self.conf_round_data.insert_confirmation(
            sender,
            feasible_values,
            partial_signature,
        ) {
            Ok(votes) => votes,
            Err(_) => {
                assert(self@ == old(self)@);
                assert((RoundDataVoteAcceptResult::AlreadyAccepted, self@) == conf_step(old(self)@, sender, feasible_values, None));
                return RoundDataVoteAcceptResult::AlreadyAccepted;
            },
        };
        assert(self.conf_round_data.signers(feasible_values) == self@.conf[feasible_values]);
        assert(vote_count == old(self)@.conf[feasible_values].insert(sender).len());
        let ghost mid = self@;
        assert(mid == RoundView { conf: old(self)@.conf.insert(feasible_values, old(self)@.conf[feasible_values].insert(sender)), ..old(self)@ });
        if vote_count >= 2 * self.f + 1 && feasible_values.is_subset(&self.values_r) {
            let coin = self.perform_coin_flip(feasible_values);
            let r = self.apply_coin(feasible_values, coin);
            return r;
        }
        assert((RoundDataVoteAcceptResult::Accepted, self@) == conf_step(old(self)@, sender, feasible_values, None));
        RoundDataVoteAcceptResult::Accepted
    }

    /// Draws the common coin from the shares that confirmed `winning_set`;
    /// `None` when they are too few to combine or the combined signature
    /// cannot be serialised.
    fn perform_coin_flip(&self, winning_set: BoolSet) -> (r: Option<bool>)
        ensures
            r == coin_of(self.keys(), self.shares_for(winning_set)),
    {
        let signatures = self.conf_round_data.get_signatures_for_values(winning_set);
        match flip_coin(&self.pub_key, signatures) {
            Ok(coin) => Some(coin),
            Err(_) => None,
        }
    }

    /// Ends the confirmation phase with the drawn `coin` (`None`: none could be
    /// drawn), as `coin_step` says.
    pub fn apply_coin(&mut self, winning_set: BoolSet, coin: Option<bool>) -> (r: RoundDataVoteAcceptResult)
        requires
            old(self).wf(),
        ensures
            final(self).wf(),
            forall|s: BoolSet| #[trigger] final(self).shares_for(s) == old(self).shares_for(s),
            final(self).keys() == old(self).keys(),
            (r, final(self)@) == coin_step(old(self)@, winning_set, coin),
    {
        let coin_flip_result = match coin {
            Some(c) => c,
            None => return RoundDataVoteAcceptResult::Failed(self.estimate),
        };
        if winning_set.len() != 1 {
            return RoundDataVoteAcceptResult::Failed(coin_flip_result);
        }
        let winner = winning_set.has_true;
        if winner == coin_flip_result {
            self.state = AsyncBinaryAgreementState::Finishing;
            self.estimate = coin_flip_result;
            if self.try_register_broadcast(coin_flip_result) {
                RoundDataVoteAcceptResult::BroadcastFinalized(coin_flip_result)
            } else {
                RoundDataVoteAcceptResult::Accepted
            }
        } else {
            RoundDataVoteAcceptResult::Failed(winner)
        }
    }

    /// Marks a `Finish(value)` as sent; false if it was sent already.
    fn try_register_broadcast(&mut self, value: bool) -> (r: bool)
        ensures
            r == !old(self).broadcast_finish.has(value),
            final(self).broadcast_finish == old(self).broadcast_finish.with(value),
            final(self).state == old(self).state,
            final(self).f == old(self).f,
            final(self).pub_key == old(self).pub_key,
            final(self).estimate == old(self).estimate,
            final(self).values_r == old(self).values_r,
            final(self).val_data == old(self).val_data,
            final(self).broadcast_estimates == old(self).broadcast_estimates,
            final(self).aux_round_data == old(self).aux_round_data,
            final(self).conf_round_data == old(self).conf_round_data,
            final(self).finish_round_data == old(self).finish_round_data,
            final(self).decided == old(self).decided,
    {
        let was = self.broadcast_finish.contains(value);
        self.broadcast_finish = if value {
            BoolSet { has_false: self.broadcast_finish.has_false, has_true: true }
        } else {
            BoolSet { has_false: true, has_true: self.broadcast_finish.has_true }
        };
        !was
    }

    pub fn accept_finish(&mut self, sender: NodeId, final_value: bool) -> (r: RoundDataVoteAcceptResult)
        requires
            old(self).wf(),
        ensures
            final(self).wf(),
            forall|s: BoolSet| #[trigger] final(self).shares_for(s) == old(self).shares_for(s),
            final(self).keys() == old(self).keys(),
            (r, final(self)@) == finish_step(old(self)@, sender, final_value),
    {
        match self.state {
            AsyncBinaryAgreementState::Finishing => self.insert_finish(sender, final_value),
            _ => RoundDataVoteAcceptResult::Queue,
        }
    }

    fn insert_finish(&mut self, sender: NodeId, final_value: bool) -> (r: RoundDataVoteAcceptResult)
        requires
            old(self).wf(),
            old(self)@.phase == AsyncBinaryAgreementState::Finishing,
        ensures
            final(self).wf(),
            forall|s: BoolSet| #[trigger] final(self).shares_for(s) == old(self).shares_for(s),
            final(self).keys() == old(self).keys(),
            (r, final(self)@) == finish_step(old(self)@, sender, final_value),
    {
        if self.decided.is_some() {
            return RoundDataVoteAcceptResult::AlreadyAccepted;
        }
        assert(old(self)@.finish[final_value] == old(self).finish_round_data.votes(final_value));
        let vote_count = match self.finish_round_data.insert(sender, final_value) {
            Ok(votes) => votes,
            Err(_) => {
                assert(self@ == old(self)@);
                return RoundDataVoteAcceptResult::AlreadyAccepted;
            },
        };
        assert(self.finish_round_data.votes(final_value) == self@.finish[final_value]);
        assert(vote_count == old(self)@.finish[final_value].insert(sender).len());
        if vote_count >= 2 * self.f + 1 {
            self.decided = Some(final_value);
            return RoundDataVoteAcceptResult::Finalized(final_value);
        }
        if vote_count >= self.f + 1 && self.try_register_broadcast(final_value) {
            return RoundDataVoteAcceptResult::BroadcastFinalized(final_value);
        }
        RoundDataVoteAcceptResult::Accepted
    }
}

} // verus!
