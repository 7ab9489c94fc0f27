use vstd::prelude::*;
use std::collections::VecDeque;
use crate::aba_messages::AsyncBinaryAgreementMessage;
use crate::node::StoredMessage;

verus! {

pub type PendingMessage = StoredMessage<AsyncBinaryAgreementMessage>;

/// Messages buffered by round: one FIFO queue per round from `base` on.
/// Rounds below `base` are gone for good.
pub struct PendingMessages {
    current_round_base: usize,
    per_round_messages: VecDeque<VecDeque<PendingMessage>>,
}

impl PendingMessages {
    pub closed spec fn base(&self) -> nat {
        self.current_round_base as nat
    }

    /// The queue of round `round`, oldest first.
    pub closed spec fn queued(&self, round: int) -> Seq<PendingMessage> {
        let i = round - self.current_round_base;
        if 0 <= i < self.per_round_messages@.len() {
            self.per_round_messages@[i]@
        } else {
            Seq::empty()
        }
    }

    /// All queues, by round.
    pub open spec fn queues(&self) -> Map<int, Seq<PendingMessage>> {
        Map::new(|r: int| true, |r: int| self.queued(r))
    }

    pub open spec fn wf(&self) -> bool {
        forall|r: int| r < self.base() ==> #[trigger] self.queued(r) == Seq::<PendingMessage>::empty()
    }

    pub fn new(current_round_base: usize) -> (r: Self)
        ensures
            r.wf(),
            r.base() == current_round_base,
            forall|round: int| #[trigger] r.queued(round) == Seq::<PendingMessage>::empty(),
    {
        PendingMessages { current_round_base, per_round_messages: VecDeque::new() }
    }

    /// Appends `message` to the queue of `round`; a round below the base is
    /// dropped.
    pub fn add_message(&mut self, round: usize, message: PendingMessage)
        requires
            old(self).wf(),
        ensures
            final(self).wf(),
            final(self).base() == old(self).base(),
            round >= old(self).base() ==> final(self).queues() == old(self).queues().insert(
                round as int,
                old(self).queued(round as int).push(message),
            ),
            round < old(self).base() ==> final(self).queues() == old(self).queues(),
    {
        if round < self.current_round_base {
            assert(self.queues() =~= old(self).queues());
            return;
        }
        let round_index = round - self.current_round_base;
        while self.per_round_messages.len() <= round_index
            invariant
                self.current_round_base == old(self).current_round_base,
                self.per_round_messages@.len() >= old(self).per_round_messages@.len(),
                forall|r: int| #[trigger] self.queued(r) == old(self).queued(r),
            decreases round_index + 1 - self.per_round_messages.len(),
        {
            let ghost before = *self;
            self.per_round_messages.push_back(VecDeque::new());
            assert forall|r: int| #[trigger] self.queued(r) == old(self).queued(r) by {
                assert(self.queued(r) == before.queued(r));
            }
        }
        let ghost before = *self;
        let mut bucket = self.per_round_messages.remove(round_index).unwrap();
        assert(bucket@ == before.per_round_messages@[round_index as int]@);
        bucket.push_back(message);
        self.per_round_messages.insert(round_index, bucket);
        proof {
            assert(self.per_round_messages@ =~= before.per_round_messages@.update(round_index as int, bucket));
            assert(before.queued(round as int) == old(self).queued(round as int));
            assert forall|r: int| #[trigger] self.queued(r) == (if r == round as int {
                old(self).queued(round as int).push(message)
            } else {
                old(self).queued(r)
            }) by {
                let i = r - self.current_round_base;
                assert(before.queued(r) == old(self).queued(r));
                if 0 <= i < self.per_round_messages@.len() && i != round_index as int {
                    assert(self.per_round_messages@[i] == before.per_round_messages@[i]);
                }
            }
            assert(self.queues() =~= old(self).queues().insert(round as int, old(self).queued(round as int).push(message)));
        }
    }

    /// Drops the queues of the rounds below `new_base`.
    pub fn advance_base(&mut self, new_base: usize)
        requires
            old(self).wf(),
        ensures
            final(self).wf(),
            final(self).base() == if new_base > old(self).base() { new_base as nat } else { old(self).base() },
            forall|r: int| r >= final(self).base() ==> #[trigger] final(self).queued(r) == old(self).queued(r),
    {
        if new_base <= self.current_round_base {
            return;
        }
        let mut skipped: usize = 0;
        let old_base = self.current_round_base;
        let to_skip = new_base - old_base;
        while skipped < to_skip && self.per_round_messages.len() > 0
            invariant
                old_base == old(self).current_round_base,
                self.current_round_base == old_base + skipped,
                to_skip == new_base - old_base,
                skipped <= to_skip,
                new_base > old_base,
                forall|r: int| r >= self.current_round_base ==> #[trigger] self.queued(r) == old(self).queued(r),
            decreases new_base - old_base - skipped,
        {
            let ghost before = *self;
            self.per_round_messages.pop_front();
            skipped += 1;
            self.current_round_base = self.current_round_base + 1;
            assert forall|r: int| r >= self.current_round_base implies #[trigger] self.queued(r) == old(self).queued(r) by {
                assert(self.queued(r) == before.queued(r));
            }
        }
        let ghost before = *self;
        self.current_round_base = new_base;
        proof {
            if skipped < new_base - old_base {
                assert(before.per_round_messages@.len() == 0);
            }
            assert forall|r: int| r >= self.current_round_base implies #[trigger] self.queued(r) == old(self).queued(r) by {
                if skipped < new_base - old_base {
                    assert(old(self).queued(r) == before.queued(r));
                } else {
                    assert(self.queued(r) == before.queued(r));
                }
            }
        }
    }

    /// Moves the base up to `round` and hands out the oldest message queued
    /// for it; nothing for a round below the base.
    pub fn pop_message(&mut self, round: usize) -> (r: Option<PendingMessage>)
        requires
            old(self).wf(),
        ensures
            final(self).wf(),
            round < old(self).base() ==> r is None && final(self).queues() == old(self).queues()
                && final(self).base() == old(self).base(),
            round >= old(self).base() ==> {
                &&& final(self).base() == round
                &&& forall|q: int| q > round ==> #[trigger] final(self).queued(q) == old(self).queued(q)
                &&& old(self).queued(round as int).len() == 0 ==> r is None
                    && final(self).queued(round as int) == old(self).queued(round as int)
                &&& old(self).queued(round as int).len() > 0 ==> r == Some(old(self).queued(round as int)[0])
                    && final(self).queued(round as int) == old(self).queued(round as int).drop_first()
            },
    {
        if round < self.current_round_base {
            assert(self.queues() =~= old(self).queues());
            return None;
        }
        self.advance_base(round);
        if self.per_round_messages.len() == 0 {
            return None;
        }
        let ghost before = *self;
        assert(before.queued(round as int) == old(self).queued(round as int));
        let mut bucket = self.per_round_messages.pop_front().unwrap();
        assert(bucket@ == before.per_round_messages@[0]@);
        let r = bucket.pop_front();
        self.per_round_messages.push_front(bucket);
        proof {
            assert(self.per_round_messages@ =~= before.per_round_messages@.update(0, bucket));
            assert(self.queued(round as int) == bucket@);
            assert forall|q: int| q > round implies #[trigger] self.queued(q) == old(self).queued(q) by {
                assert(self.queued(q) == before.queued(q));
            }
            assert forall|q: int| q < self.base() implies #[trigger] self.queued(q) == Seq::<PendingMessage>::empty() by {}
        }
        r
    }
}

} // verus!
