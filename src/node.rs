use vstd::prelude::*;

verus! {

/// Identity of a participant, an integer in `[0, n)`.
#[derive(Clone, Copy, Debug, Hash, PartialEq, Eq, Structural)]
pub struct NodeId(pub u32);

/// The part of an inbound envelope that the protocols read.
#[derive(Clone, Copy, Debug, PartialEq, Eq, Structural)]
pub struct Header {
    pub from: NodeId,
    pub to: NodeId,
}

/// An inbound message together with the header it arrived with.
#[derive(Clone, Debug)]
pub struct StoredMessage<M> {
    pub header: Header,
    pub message: M,
}

impl<M> StoredMessage<M> {
    pub fn new(header: Header, message: M) -> (r: Self)
        ensures
            r.header == header,
            r.message == message,
    {
        StoredMessage { header, message }
    }

    pub fn from(&self) -> (r: NodeId)
        ensures
            r == self.header.from,
    {
        self.header.from
    }
}

/// A set of nodes, kept as a sequence without repetitions.
#[derive(Clone, Debug)]
pub struct NodeSet {
    nodes: Vec<NodeId>,
}

impl View for NodeSet {
    type V = Set<NodeId>;

    closed spec fn view(&self) -> Set<NodeId> {
        self.nodes@.to_set()
    }
}

impl NodeSet {
    pub closed spec fn wf(&self) -> bool {
        self.nodes@.no_duplicates()
    }

    pub fn new() -> (r: NodeSet)
        ensures
            r.wf(),
            r@ == Set::<NodeId>::empty(),
    {
        let r = NodeSet { nodes: Vec::new() };
        assert(r@ =~= Set::<NodeId>::empty());
        r
    }

    pub fn contains(&self, id: NodeId) -> (r: bool)
        ensures
            r == self@.contains(id),
    {
        let mut i: usize = 0;
        while i < self.nodes.len()
            invariant
                0 <= i <= self.nodes.len(),
                forall|j: int| 0 <= j < i ==> self.nodes@[j] != id,
            decreases self.nodes.len() - i,
        {
            if self.nodes[i] == id {
                assert(self.nodes@.to_set().contains(self.nodes@[i as int]));
                return true;
            }
            i += 1;
        }
        assert(!self.nodes@.contains(id));
        false
    }

    /// Adds `id`; returns whether it was absent before.
    pub fn insert(&mut self, id: NodeId) -> (r: bool)
        requires
            old(self).wf(),
        ensures
            final(self).wf(),
            r == !old(self)@.contains(id),
            final(self)@ == old(self)@.insert(id),
    {
        if self.contains(id) {
            assert(self@.insert(id) =~= self@);
            false
        } else {
            let ghost before = self.nodes@;
            self.nodes.push(id);
            proof {
                before.lemma_push_to_set_commute(id);
                assert(self.nodes@ == before.push(id));
                assert(self.nodes@.no_duplicates()) by {
                    assert forall|a: int, b: int|
                        0 <= a < self.nodes@.len() && 0 <= b < self.nodes@.len() && a != b
                        implies self.nodes@[a] != self.nodes@[b] by {
                        if a == before.len() as int {
                            assert(before.contains(self.nodes@[b]));
                        } else if b == before.len() as int {
                            assert(before.contains(self.nodes@[a]));
                        }
                    }
                }
            }
            true
        }
    }

    pub proof fn lemma_finite(&self)
        ensures
            self@.finite(),
    {
        vstd::seq_lib::seq_to_set_is_finite(self.nodes@);
    }

    pub fn len(&self) -> (r: usize)
        requires
            self.wf(),
        ensures
            r == self@.len(),
    {
        proof {
            self.nodes@.unique_seq_to_set();
        }
        self.nodes.len()
    }
}

} // verus!
