use vstd::prelude::*;
use crate::aba::{round_step, AsyncBinaryAgreement, AsyncBinaryAgreementResult};
use crate::aba_messages::{AsyncBinaryAgreementMessage, AsyncBinaryAgreementMessageType};
use crate::aba_pending::PendingMessage;
use crate::aba_messages::BoolSet;
use crate::aba_round::{
    fresh_round, round_phase_rank, AsyncBinaryAgreementState, RoundDataVoteAcceptResult,
    RoundView,
};
use crate::node::{NodeId, StoredMessage};
use crate::quorum_info::QuorumInfo;
use crate::reliable_broadcast::{
    phase_rank, ReliableBroadcastInstance, ReliableBroadcastMessage, ReliableBroadcastResult,
    ReliableBroadcastState,
};

verus! {

/// A round's phase never goes back, whatever message arrives and whatever
/// the coin: `CollectingVal -> CollectingAux -> CollectingConf -> Finishing`,
/// and `Finishing` is never left.
pub proof fn lemma_round_phase_monotone(
    v: RoundView,
    sender: NodeId,
    mt: AsyncBinaryAgreementMessageType,
    coin: Option<bool>,
)
    ensures
        round_phase_rank(round_step(v, sender, mt, coin).1.phase) >= round_phase_rank(v.phase),
        v.phase == AsyncBinaryAgreementState::Finishing ==> round_step(v, sender, mt, coin).1.phase
            == AsyncBinaryAgreementState::Finishing,
{
}

/// A round handed the same vote twice: the second time it changes nothing
/// and answers `AlreadyAccepted` or `Ignored`, or `Queue` again if the first
/// was queued; the coin drawn either time does not matter.
pub proof fn lemma_round_duplicate_vote(
    v: RoundView,
    sender: NodeId,
    mt: AsyncBinaryAgreementMessageType,
    coin1: Option<bool>,
    coin2: Option<bool>,
)
    ensures
        ({
            let (r1, v1) = round_step(v, sender, mt, coin1);
            let (r2, v2) = round_step(v1, sender, mt, coin2);
            &&& v2 == v1
            &&& r2 == RoundDataVoteAcceptResult::AlreadyAccepted || r2
                == RoundDataVoteAcceptResult::Ignored || (r2 == RoundDataVoteAcceptResult::Queue && r1
                == RoundDataVoteAcceptResult::Queue)
        }),
{
    match mt {
        AsyncBinaryAgreementMessageType::Val { estimate } => {
            let votes = v.vals[estimate].insert(sender);
            assert(v.vals.insert(estimate, votes)[estimate].contains(sender));
        },
        AsyncBinaryAgreementMessageType::Aux { accepted_estimates } => {
            let votes = v.aux[accepted_estimates].insert(sender);
            assert(v.aux.insert(accepted_estimates, votes)[accepted_estimates].contains(sender));
        },
        AsyncBinaryAgreementMessageType::Conf { feasible_values, .. } => {
            let votes = v.conf[feasible_values].insert(sender);
            assert(v.conf.insert(feasible_values, votes)[feasible_values].contains(sender));
        },
        AsyncBinaryAgreementMessageType::Finish { value } => {
            let votes = v.finish[value].insert(sender);
            assert(v.finish.insert(value, votes)[value].contains(sender));
        },
    }
}

/// A binary agreement handed the same message twice, the first time not
/// holding it back: the second time it is ignored, nothing is broadcast and
/// nothing changes.
pub proof fn lemma_aba_duplicate_message(
    a0: AsyncBinaryAgreement,
    message: PendingMessage,
    r1: (AsyncBinaryAgreementResult, Option<AsyncBinaryAgreementMessage>),
    a1: AsyncBinaryAgreement,
    r2: (AsyncBinaryAgreementResult, Option<AsyncBinaryAgreementMessage>),
    a2: AsyncBinaryAgreement,
)
    requires
        AsyncBinaryAgreement::processes(&a0, message, r1, &a1),
        AsyncBinaryAgreement::processes(&a1, message, r2, &a2),
        r1.0 != AsyncBinaryAgreementResult::MessageQueued,
    ensures
        r2 == (AsyncBinaryAgreementResult::MessageIgnored, None::<AsyncBinaryAgreementMessage>),
        a2.same_state(&a1),
{
    let m = message.message;
    if m.round == a0.spec_round() {
        let c1 = a0.drawn_coin(message);
        let (res1, v1) = round_step(a0.current(), message.header.from, m.message_type, c1);
        if res1 is Failed && a0.spec_round() < usize::MAX {
            assert(m.round < a1.spec_round());
        } else {
            assert(a1.spec_round() == a0.spec_round());
            assert(a1.current() == v1);
            let c2 = a1.drawn_coin(message);
            lemma_round_duplicate_vote(a0.current(), message.header.from, m.message_type, c1, c2);
            assert(res1 != RoundDataVoteAcceptResult::Queue);
        }
    }
}

/// An agreement that reports `Decided` has its round decided and finishing.
pub proof fn lemma_decided_round(
    a0: AsyncBinaryAgreement,
    message: PendingMessage,
    r: (AsyncBinaryAgreementResult, Option<AsyncBinaryAgreementMessage>),
    a1: AsyncBinaryAgreement,
)
    requires
        AsyncBinaryAgreement::processes(&a0, message, r, &a1),
        r.0 is Decided,
    ensures
        a1.current().decided == Some(r.0->Decided_0),
        a1.current().phase == AsyncBinaryAgreementState::Finishing,
{
}

/// Once its round has decided, an agreement never reports `Decided` again:
/// every further message leaves the round as it is (a later `Finish` is
/// `AlreadyAccepted`), so together with `lemma_decided_round` an instance
/// decides at most once.
pub proof fn lemma_decides_once(
    a1: AsyncBinaryAgreement,
    message: PendingMessage,
    r: (AsyncBinaryAgreementResult, Option<AsyncBinaryAgreementMessage>),
    a2: AsyncBinaryAgreement,
)
    requires
        a1.current().decided is Some,
        a1.current().phase == AsyncBinaryAgreementState::Finishing,
        AsyncBinaryAgreement::processes(&a1, message, r, &a2),
    ensures
        !(r.0 is Decided),
        a2.spec_round() == a1.spec_round(),
        a2.current() == a1.current(),
{
}

/// A broadcast instance handed the same message twice, the first time
/// processing or ignoring it without changing phase: the second time has
/// the same outcome, broadcasts nothing and changes nothing.
pub proof fn lemma_rbc_duplicate_message<RQ>(
    a0: ReliableBroadcastInstance<RQ>,
    message: StoredMessage<ReliableBroadcastMessage<RQ>>,
    r1: (ReliableBroadcastResult, Option<ReliableBroadcastMessage<RQ>>),
    a1: ReliableBroadcastInstance<RQ>,
    r2: (ReliableBroadcastResult, Option<ReliableBroadcastMessage<RQ>>),
    a2: ReliableBroadcastInstance<RQ>,
)
    requires
        ReliableBroadcastInstance::processes(&a0, message, r1, &a1),
        ReliableBroadcastInstance::processes(&a1, message, r2, &a2),
        r1.0 == ReliableBroadcastResult::Processed || r1.0 == ReliableBroadcastResult::MessageIgnored,
        a1.phase() == a0.phase(),
    ensures
        r2.0 == r1.0,
        r2.1 is None,
        a2.same_state(&a1),
{
    match message.message {
        ReliableBroadcastMessage::Send(p, d) => {},
        ReliableBroadcastMessage::Echo(d) => {
            if a0.accepts_echo(d) {
                assert(a1.echoes().insert(message.header.from) =~= a1.echoes());
            }
        },
        ReliableBroadcastMessage::Ready(d) => {
            if a0.accepts_ready(d) {
                assert(a1.readies().insert(message.header.from) =~= a1.readies());
            }
        },
    }
}

/// A message of a later round is held back, and once the instance has moved
/// on to that round, polling hands it out (here: the first message held for
/// the round, after the one round step that reaches it).
pub proof fn lemma_future_round_replayed(
    a0: AsyncBinaryAgreement,
    message: PendingMessage,
    r1: (AsyncBinaryAgreementResult, Option<AsyncBinaryAgreementMessage>),
    a1: AsyncBinaryAgreement,
    next_estimate: bool,
    a2: AsyncBinaryAgreement,
    r3: Option<PendingMessage>,
    a3: AsyncBinaryAgreement,
)
    requires
        message.message.round == a0.spec_round() + 1,
        a0.pending().queued(message.message.round as int).len() == 0,
        AsyncBinaryAgreement::processes(&a0, message, r1, &a1),
        AsyncBinaryAgreement::advances(&a1, next_estimate, &a2),
        AsyncBinaryAgreement::polls(&a2, r3, &a3),
    ensures
        r1.0 == AsyncBinaryAgreementResult::MessageQueued,
        r3 == Some(message),
{
    let q = message.message.round as int;
    assert(a1.pending().queues()[q] == a1.pending().queued(q));
    assert(a2.pending().queues()[q] == a2.pending().queued(q));
    assert(a0.pending().queued(q).push(message)[0] == message);
}

/// Messages held back for a later round `q` stay held, in order, until the
/// instance reaches `q`: processing a message, opening the next round or
/// polling, from a round below `q`, keeps the old queue of `q` as a prefix of
/// the new one.
pub proof fn lemma_future_queue_kept(
    a0: AsyncBinaryAgreement,
    q: int,
    message: PendingMessage,
    r1: (AsyncBinaryAgreementResult, Option<AsyncBinaryAgreementMessage>),
    next_estimate: bool,
    polled: Option<PendingMessage>,
    a1: AsyncBinaryAgreement,
)
    requires
        q > a0.spec_round(),
        AsyncBinaryAgreement::processes(&a0, message, r1, &a1) || AsyncBinaryAgreement::advances(
            &a0,
            next_estimate,
            &a1,
        ) || AsyncBinaryAgreement::polls(&a0, polled, &a1),
    ensures
        a0.pending().queued(q).len() <= a1.pending().queued(q).len(),
        a1.pending().queued(q).subrange(0, a0.pending().queued(q).len() as int) == a0.pending().queued(q),
{
    let old_q = a0.pending().queued(q);
    assert(a0.pending().queues()[q] == old_q);
    assert(a1.pending().queues()[q] == a1.pending().queued(q));
    assert(old_q.push(message).subrange(0, old_q.len() as int) =~= old_q);
    assert(old_q.subrange(0, old_q.len() as int) =~= old_q);
    if AsyncBinaryAgreement::processes(&a0, message, r1, &a1) && message.message.round == a0.spec_round() {
        assert(AsyncBinaryAgreement::current_round_effect(&a0, message, a0.drawn_coin(message), r1, &a1));
    }
}

/// Successive polls at one round hand out that round's queue in order, each
/// message exactly once, and then nothing: the `i`-th poll returns the
/// `i`-th message held for the round when polling began, or `None` past the
/// end. With `lemma_future_queue_kept`, nothing held for a later round is lost
/// before the instance reaches it.
pub proof fn lemma_polls_drain_in_order(states: Seq<AsyncBinaryAgreement>, outs: Seq<Option<PendingMessage>>)
    requires
        states.len() == outs.len() + 1,
        forall|i: int| 0 <= i < outs.len() ==> AsyncBinaryAgreement::polls(
            &states[i],
            #[trigger] outs[i],
            &states[i + 1],
        ),
    ensures
        ({
            let q = states[0].pending().queued(states[0].spec_round() as int);
            forall|i: int| 0 <= i < outs.len() ==> #[trigger] outs[i] == if i < q.len() {
                Some(q[i])
            } else {
                None
            }
        }),
    decreases outs.len(),
{
    if outs.len() > 0 {
        let q = states[0].pending().queued(states[0].spec_round() as int);
        assert(AsyncBinaryAgreement::polls(&states[0], outs[0], &states[1]));
        let rest_states = states.drop_first();
        let rest_outs = outs.drop_first();
        assert forall|i: int| 0 <= i < rest_outs.len() implies AsyncBinaryAgreement::polls(
            &rest_states[i],
            #[trigger] rest_outs[i],
            &rest_states[i + 1],
        ) by {
            assert(AsyncBinaryAgreement::polls(&states[i + 1], outs[i + 1], &states[i + 2]));
        }
        lemma_polls_drain_in_order(rest_states, rest_outs);
        let q1 = states[1].pending().queued(states[1].spec_round() as int);
        assert(states[1].spec_round() == states[0].spec_round());
        if q.len() > 0 {
            assert(q1 == q.drop_first());
        } else {
            assert(q1 == q);
        }
        assert forall|i: int| 0 <= i < outs.len() implies #[trigger] outs[i] == if i < q.len() {
            Some(q[i])
        } else {
            None
        } by {
            if i > 0 {
                assert(outs[i] == rest_outs[i - 1]);
            }
        }
    }
}

/// One step of an agreement taken below round `q`: a message processed, the
/// next round opened, or a poll.
pub open spec fn step_below(a0: AsyncBinaryAgreement, a1: AsyncBinaryAgreement, q: int) -> bool {
    &&& q > a0.spec_round()
    &&& (exists|message: PendingMessage, r: (AsyncBinaryAgreementResult, Option<AsyncBinaryAgreementMessage>)|
        #[trigger] AsyncBinaryAgreement::processes(&a0, message, r, &a1))
        || (exists|next_estimate: bool| #[trigger] AsyncBinaryAgreement::advances(&a0, next_estimate, &a1))
        || (exists|polled: Option<PendingMessage>| #[trigger] AsyncBinaryAgreement::polls(&a0, polled, &a1))
}

/// Along any run of steps taken below round `q`, every message held for `q`
/// at the start is still held, in the same order, at the end: the start's
/// queue of `q` is a prefix of the end's.
pub proof fn lemma_future_queue_kept_along(states: Seq<AsyncBinaryAgreement>, q: int)
    requires
        states.len() >= 1,
        forall|i: int| 0 <= i < states.len() - 1 ==> step_below(#[trigger] states[i], states[i + 1], q),
    ensures
        states[0].pending().queued(q).len() <= states.last().pending().queued(q).len(),
        states.last().pending().queued(q).subrange(0, states[0].pending().queued(q).len() as int)
            == states[0].pending().queued(q),
    decreases states.len(),
{
    let first = states[0].pending().queued(q);
    if states.len() == 1 {
        assert(first.subrange(0, first.len() as int) =~= first);
    } else {
        assert(step_below(states[0], states[1], q));
        if exists|message: PendingMessage, r: (AsyncBinaryAgreementResult, Option<AsyncBinaryAgreementMessage>)|
            #[trigger] AsyncBinaryAgreement::processes(&states[0], message, r, &states[1]) {
            let (m, r) = choose|message: PendingMessage, r: (AsyncBinaryAgreementResult, Option<AsyncBinaryAgreementMessage>)|
                #[trigger] AsyncBinaryAgreement::processes(&states[0], message, r, &states[1]);
            lemma_future_queue_kept(states[0], q, m, r, false, None, states[1]);
        } else if exists|next_estimate: bool| #[trigger] AsyncBinaryAgreement::advances(&states[0], next_estimate, &states[1]) {
            let e = choose|next_estimate: bool| #[trigger] AsyncBinaryAgreement::advances(&states[0], next_estimate, &states[1]);
            lemma_future_queue_kept(states[0], q, arbitrary(), arbitrary(), e, None, states[1]);
        } else {
            let p = choose|polled: Option<PendingMessage>| #[trigger] AsyncBinaryAgreement::polls(&states[0], polled, &states[1]);
            lemma_future_queue_kept(states[0], q, arbitrary(), arbitrary(), false, p, states[1]);
        }
        let rest = states.drop_first();
        assert forall|i: int| 0 <= i < rest.len() - 1 implies step_below(#[trigger] rest[i], rest[i + 1], q) by {
            assert(step_below(states[i + 1], states[i + 2], q));
        }
        lemma_future_queue_kept_along(rest, q);
        let mid = states[1].pending().queued(q);
        let last = states.last().pending().queued(q);
        assert(rest.last() == states.last());
        assert(last.subrange(0, first.len() as int) =~= mid.subrange(0, first.len() as int));
    }
}

/// A message of an earlier round is never seen: processing ignores it and
/// changes nothing, and polling only hands out messages of the current
/// round.
pub proof fn lemma_past_round_unobservable(
    a0: AsyncBinaryAgreement,
    message: PendingMessage,
    r1: (AsyncBinaryAgreementResult, Option<AsyncBinaryAgreementMessage>),
    a1: AsyncBinaryAgreement,
    r2: Option<PendingMessage>,
    a2: AsyncBinaryAgreement,
)
    requires
        message.message.round < a0.spec_round(),
        AsyncBinaryAgreement::processes(&a0, message, r1, &a1),
        AsyncBinaryAgreement::polls(&a1, r2, &a2),
    ensures
        r1 == (AsyncBinaryAgreementResult::MessageIgnored, None::<AsyncBinaryAgreementMessage>),
        a1.same_state(&a0),
        r2 matches Some(m) ==> m.message.round == a0.spec_round() && m != message,
{
}

/// A set of more than `f` members holds a correct one, when at most `f`
/// members are not correct.
proof fn lemma_holds_correct(s: Set<NodeId>, members: Set<NodeId>, correct: Set<NodeId>, f: nat) -> (c: NodeId)
    requires
        members.finite(),
        s.subset_of(members),
        correct.subset_of(members),
        members.difference(correct).len() <= f,
        s.len() >= f + 1,
    ensures
        s.contains(c),
        correct.contains(c),
{
    vstd::set_lib::lemma_len_subset(correct, members);
    vstd::set_lib::lemma_len_subset(s, members);
    vstd::set_lib::lemma_len_subset(members.difference(correct), members);
    assert(s.difference(correct).subset_of(members.difference(correct)));
    vstd::set_lib::lemma_len_subset(s.difference(correct), members.difference(correct));
    vstd::set_lib::lemma_set_difference_len(s, correct);
    let both = s.intersect(correct);
    vstd::set_lib::lemma_len_subset(both, s);
    assert(both.len() > 0);
    if forall|x: NodeId| !both.contains(x) {
        assert(both =~= Set::<NodeId>::empty());
    }
    let c = choose|x: NodeId| both.contains(x);
    c
}

/// Two subsets of `members` share at least `|a| + |b| - |members|` nodes.
proof fn lemma_overlap(a: Set<NodeId>, b: Set<NodeId>, members: Set<NodeId>)
    requires
        members.finite(),
        a.subset_of(members),
        b.subset_of(members),
    ensures
        a.intersect(b).len() + members.len() >= a.len() + b.len(),
        a.intersect(b).subset_of(members),
{
    vstd::set_lib::lemma_len_subset(a, members);
    vstd::set_lib::lemma_len_subset(b, members);
    vstd::set_lib::lemma_len_subset(a + b, members);
    vstd::set_lib::lemma_set_intersect_union_lens(a, b);
}

/// Agreement of reliable broadcast: two correct nodes that both reach
/// `Ready` hold the same digest.
///
/// The states are a snapshot of the correct nodes' instances, all over
/// `quorum`, with at most `f` members not correct. Every recorded sender is a
/// member, and a correct sender recorded by a correct node did send that
/// message: its ready (it is past `Proposed`) or its echo, each for its own
/// proposal's digest, which is the recording node's digest.
pub proof fn lemma_rbc_agreement<RQ>(
    quorum: QuorumInfo,
    correct: Set<NodeId>,
    states: Map<NodeId, ReliableBroadcastInstance<RQ>>,
    i: NodeId,
    j: NodeId,
)
    requires
        quorum.wf(),
        correct.subset_of(quorum.member_set()),
        quorum.member_set().difference(correct).len() <= quorum.spec_f(),
        forall|k: NodeId| #[trigger] correct.contains(k) ==> {
            &&& states.contains_key(k)
            &&& states[k].wf()
            &&& states[k].quorum() == quorum
            &&& states[k].echoes().subset_of(quorum.member_set())
            &&& states[k].readies().subset_of(quorum.member_set())
        },
        forall|k: NodeId, s: NodeId|
            correct.contains(k) && correct.contains(s) && #[trigger] states[k].readies().contains(s)
                ==> phase_rank(states[s].phase()) >= 2 && states[s].digest() == states[k].digest(),
        forall|k: NodeId, s: NodeId|
            correct.contains(k) && correct.contains(s) && #[trigger] states[k].echoes().contains(s)
                ==> states[s].digest() == states[k].digest(),
        correct.contains(i),
        correct.contains(j),
        states[i].phase() == ReliableBroadcastState::Ready,
        states[j].phase() == ReliableBroadcastState::Ready,
    ensures
        states[i].digest() is Some,
        states[i].digest() == states[j].digest(),
{
    let members = quorum.member_set();
    let n = quorum.spec_n();
    let f = quorum.spec_f();
    vstd::seq_lib::seq_to_set_is_finite(quorum.spec_members());
    quorum.spec_members().unique_seq_to_set();
    assert(members.len() == n);
    states[i].lemma_wf_facts();
    states[j].lemma_wf_facts();
    let si = lemma_holds_correct(states[i].readies(), members, correct, f);
    let sj = lemma_holds_correct(states[j].readies(), members, correct, f);
    assert(correct.contains(si) && correct.contains(sj));
    states[si].lemma_wf_facts();
    states[sj].lemma_wf_facts();
    let ei = states[si].echoes();
    let ej = states[sj].echoes();
    lemma_overlap(ei, ej, members);
    let c = lemma_holds_correct(ei.intersect(ej), members, correct, f);
    assert(ei.contains(c) && ej.contains(c));
    assert(states[c].digest() == states[si].digest());
    assert(states[c].digest() == states[sj].digest());
}

/// Agreement on the payload too, where each correct node's proposal carries
/// the digest of its payload under an injective `digest_of`.
pub proof fn lemma_rbc_payload_agreement<RQ>(
    quorum: QuorumInfo,
    correct: Set<NodeId>,
    states: Map<NodeId, ReliableBroadcastInstance<RQ>>,
    i: NodeId,
    j: NodeId,
    digest_of: spec_fn(RQ) -> crate::reliable_broadcast::Digest,
)
    requires
        quorum.wf(),
        correct.subset_of(quorum.member_set()),
        quorum.member_set().difference(correct).len() <= quorum.spec_f(),
        forall|k: NodeId| #[trigger] correct.contains(k) ==> {
            &&& states.contains_key(k)
            &&& states[k].wf()
            &&& states[k].quorum() == quorum
            &&& states[k].echoes().subset_of(quorum.member_set())
            &&& states[k].readies().subset_of(quorum.member_set())
        },
        forall|k: NodeId, s: NodeId|
            correct.contains(k) && correct.contains(s) && #[trigger] states[k].readies().contains(s)
                ==> phase_rank(states[s].phase()) >= 2 && states[s].digest() == states[k].digest(),
        forall|k: NodeId, s: NodeId|
            correct.contains(k) && correct.contains(s) && #[trigger] states[k].echoes().contains(s)
                ==> states[s].digest() == states[k].digest(),
        forall|x: RQ, y: RQ| #[trigger] digest_of(x) == #[trigger] digest_of(y) ==> x == y,
        forall|k: NodeId| #[trigger] correct.contains(k) && states[k].proposal() is Some ==> states[k].proposal().unwrap().1
            == digest_of(states[k].proposal().unwrap().0),
        correct.contains(i),
        correct.contains(j),
        states[i].phase() == ReliableBroadcastState::Ready,
        states[j].phase() == ReliableBroadcastState::Ready,
    ensures
        states[i].proposal() is Some,
        states[i].proposal() == states[j].proposal(),
{
    lemma_rbc_agreement(quorum, correct, states, i, j);
    states[i].lemma_wf_facts();
    states[j].lemma_wf_facts();
}

/// What every round reached by votes satisfies: vote sets are finite, a
/// round past collecting values has accepted some value, and a round that
/// finishes on `v` has at least `2f + 1` confirmations of `{v}`.
pub open spec fn round_inv(v: RoundView) -> bool {
    &&& forall|s: BoolSet| #[trigger] v.conf[s].finite()
    &&& round_phase_rank(v.phase) >= 1 ==> v.values_r != BoolSet::empty_spec()
    &&& v.phase == AsyncBinaryAgreementState::Finishing ==> v.conf[BoolSet::empty_spec().with(
        v.estimate,
    )].len() >= 2 * v.f + 1
}

/// A fresh round satisfies `round_inv`, and every step keeps it.
pub proof fn lemma_round_inv(
    v: RoundView,
    sender: NodeId,
    mt: AsyncBinaryAgreementMessageType,
    coin: Option<bool>,
    f: nat,
    estimate: bool,
)
    requires
        round_inv(v),
    ensures
        round_inv(fresh_round(f, estimate)),
        round_inv(round_step(v, sender, mt, coin).1),
{
    let v1 = round_step(v, sender, mt, coin).1;
    assert forall|s: BoolSet| #[trigger] v1.conf[s].finite() by {
        if mt is Conf {
            let fv = mt->Conf_feasible_values;
            assert(v.conf[s].finite());
        }
    }
    assert forall|s: BoolSet| #[trigger] fresh_round(f, estimate).conf[s].finite() by {
        assert(fresh_round(f, estimate).conf[s] == Set::<NodeId>::empty());
    }
    if v1.phase == AsyncBinaryAgreementState::Finishing && v.phase != AsyncBinaryAgreementState::Finishing {
        let fv = mt->Conf_feasible_values;
        let votes = v.conf[fv].insert(sender);
        let w = BoolSet { has_false: !fv.has_true, has_true: fv.has_true };
        assert(fv.size() == 1);
        assert(fv == w);
        assert(BoolSet::empty_spec().with(v1.estimate) == fv);
        assert(v1.conf[fv] == votes);
    }
}

/// Within one round, two correct nodes that reach `Finishing` hold the same
/// value.
///
/// The views are a snapshot of the correct nodes' current round, `n = 3f + 1`
/// members of which at most `f` are not correct. Every recorded confirmation
/// comes from a member, and a correct signer recorded for a set `s` did send
/// `Conf(s)`: it is past collecting auxiliaries, with `s` as its accepted
/// values (which no longer change there).
pub proof fn lemma_finishing_values_agree(
    f: nat,
    members: Set<NodeId>,
    correct: Set<NodeId>,
    views: Map<NodeId, RoundView>,
    i: NodeId,
    j: NodeId,
)
    requires
        members.finite(),
        members.len() == 3 * f + 1,
        correct.subset_of(members),
        members.difference(correct).len() <= f,
        forall|k: NodeId| #[trigger] correct.contains(k) ==> {
            &&& views.contains_key(k)
            &&& views[k].f == f
            &&& round_inv(views[k])
            &&& forall|s: BoolSet| #[trigger] views[k].conf[s].subset_of(members)
        },
        forall|k: NodeId, c: NodeId, s: BoolSet|
            correct.contains(k) && correct.contains(c) && #[trigger] views[k].conf[s].contains(c)
                ==> round_phase_rank(views[c].phase) >= 2 && views[c].values_r == s,
        correct.contains(i),
        correct.contains(j),
        views[i].phase == AsyncBinaryAgreementState::Finishing,
        views[j].phase == AsyncBinaryAgreementState::Finishing,
    ensures
        views[i].estimate == views[j].estimate,
{
    let si = BoolSet::empty_spec().with(views[i].estimate);
    let sj = BoolSet::empty_spec().with(views[j].estimate);
    let ci = views[i].conf[si];
    let cj = views[j].conf[sj];
    lemma_overlap(ci, cj, members);
    let c = lemma_holds_correct(ci.intersect(cj), members, correct, f);
    assert(ci.contains(c) && cj.contains(c));
    assert(views[c].values_r == si);
    assert(views[c].values_r == sj);
}

/// Validity within a round: if every correct node has accepted only `b` so
/// far and holds the estimate `b`, a correct node's round, on any message and
/// any coin, can only fail with `b` as the next estimate or finish on `b`.
///
/// The views are a snapshot of the correct nodes' current round, with at most
/// `f` members not correct. Recorded confirmations come from members, and a
/// correct signer recorded for `s`, as the sender of a confirmation of `s`
/// when correct, is past collecting auxiliaries with `s` as its accepted
/// values.
pub proof fn lemma_round_validity(
    f: nat,
    members: Set<NodeId>,
    correct: Set<NodeId>,
    views: Map<NodeId, RoundView>,
    k: NodeId,
    sender: NodeId,
    mt: AsyncBinaryAgreementMessageType,
    coin: Option<bool>,
    b: bool,
)
    requires
        members.finite(),
        correct.subset_of(members),
        members.difference(correct).len() <= f,
        members.contains(sender),
        forall|j: NodeId| #[trigger] correct.contains(j) ==> {
            &&& views.contains_key(j)
            &&& views[j].f == f
            &&& round_inv(views[j])
            &&& !views[j].values_r.has(!b)
            &&& views[j].estimate == b
            &&& forall|s: BoolSet| #[trigger] views[j].conf[s].subset_of(members)
        },
        forall|j: NodeId, c: NodeId, s: BoolSet|
            correct.contains(j) && correct.contains(c) && #[trigger] views[j].conf[s].contains(c)
                ==> round_phase_rank(views[c].phase) >= 2 && views[c].values_r == s,
        correct.contains(sender) && mt is Conf ==> round_phase_rank(views[sender].phase) >= 2
            && views[sender].values_r == mt->Conf_feasible_values,
        correct.contains(k),
    ensures
        ({
            let (res, v1) = round_step(views[k], sender, mt, coin);
            &&& res is Failed ==> res->Failed_0 == b
            &&& v1.phase == AsyncBinaryAgreementState::Finishing && views[k].phase
                != AsyncBinaryAgreementState::Finishing ==> v1.estimate == b
        }),
{
    let v = views[k];
    if mt is Conf && v.phase == AsyncBinaryAgreementState::CollectingConf {
        let fv = mt->Conf_feasible_values;
        if !v.conf[fv].contains(sender) {
            let votes = v.conf[fv].insert(sender);
            if votes.len() >= 2 * f + 1 && fv.subset_of(v.values_r) {
                if fv == BoolSet::empty_spec() {
                    assert(correct.contains(k));
                    assert(views[k].conf[fv].subset_of(members));
                    assert(votes.subset_of(members));
                    let c = lemma_holds_correct(votes, members, correct, f);
                    if c == sender {
                        assert(views[c].values_r == fv);
                    } else {
                        assert(v.conf[fv].contains(c));
                        assert(views[c].values_r == fv);
                    }
                    assert(round_inv(views[c]));
                    assert(false);
                }
                assert(fv.has_false || fv.has_true);
                assert(fv.has(b) && !fv.has(!b));
            }
        }
    }
}

} // verus!
