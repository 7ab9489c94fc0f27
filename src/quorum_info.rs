use vstd::prelude::*;
use crate::node::NodeId;

verus! {

/// The fault model and membership of one epoch: `n` members of which at most
/// `f` are faulty, with `n >= 3f + 1`.
#[derive(Clone, Debug)]
pub struct QuorumInfo {
    n: usize,
    f: usize,
    quorum_size: usize,
    quorum_members: Vec<NodeId>,
}

impl QuorumInfo {
    pub closed spec fn spec_n(&self) -> nat {
        self.n as nat
    }

    pub closed spec fn spec_f(&self) -> nat {
        self.f as nat
    }

    pub closed spec fn spec_quorum_size(&self) -> nat {
        self.quorum_size as nat
    }

    pub closed spec fn spec_members(&self) -> Seq<NodeId> {
        self.quorum_members@
    }

    pub open spec fn member_set(&self) -> Set<NodeId> {
        self.spec_members().to_set()
    }

    /// The invariant of every value of this type.
    pub open spec fn wf(&self) -> bool {
        &&& self.spec_n() >= 3 * self.spec_f() + 1
        &&& self.spec_n() <= usize::MAX
        &&& self.spec_quorum_size() == self.spec_n() - self.spec_f()
        &&& self.spec_members().len() == self.spec_n()
        &&& self.spec_members().no_duplicates()
    }

    pub fn new(n: usize, f: usize, quorum_members: Vec<NodeId>) -> (r: Self)
        requires
            n >= 3 * f + 1,
            quorum_members@.len() == n,
            quorum_members@.no_duplicates(),
        ensures
            r.wf(),
            r.spec_n() == n,
            r.spec_f() == f,
            r.spec_quorum_size() == n - f,
            r.spec_members() == quorum_members@,
    {
        QuorumInfo { n, f, quorum_size: n - f, quorum_members }
    }

    /// A copy of this value.
    pub fn duplicate(&self) -> (r: Self)
        ensures
            r.spec_n() == self.spec_n(),
            r.spec_f() == self.spec_f(),
            r.spec_quorum_size() == self.spec_quorum_size(),
            r.spec_members() == self.spec_members(),
    {
        let mut members: Vec<NodeId> = Vec::new();
        let mut i: usize = 0;
        while i < self.quorum_members.len()
            invariant
                0 <= i <= self.quorum_members.len(),
                members@ == self.quorum_members@.subrange(0, i as int),
            decreases self.quorum_members.len() - i,
        {
            members.push(self.quorum_members[i]);
            i += 1;
            assert(members@ =~= self.quorum_members@.subrange(0, i as int));
        }
        assert(members@ =~= self.quorum_members@);
        QuorumInfo { n: self.n, f: self.f, quorum_size: self.quorum_size, quorum_members: members }
    }

    pub fn n(&self) -> (r: usize)
        ensures
            r == self.spec_n(),
    {
        self.n
    }

    pub fn f(&self) -> (r: usize)
        ensures
            r == self.spec_f(),
    {
        self.f
    }

    pub fn quorum_size(&self) -> (r: usize)
        ensures
            r == self.spec_quorum_size(),
    {
        self.quorum_size
    }

    pub fn quorum_members(&self) -> (r: &Vec<NodeId>)
        ensures
            r@ == self.spec_members(),
    {
        &self.quorum_members
    }

    pub fn is_member(&self, node_id: NodeId) -> (r: bool)
        ensures
            r == self.spec_members().contains(node_id),
    {
        let mut i: usize = 0;
        while i < self.quorum_members.len()
            invariant
                0 <= i <= self.quorum_members.len(),
                forall|j: int| 0 <= j < i ==> self.quorum_members@[j] != node_id,
            decreases self.quorum_members.len() - i,
        {
            if self.quorum_members[i] == node_id {
                return true;
            }
            i += 1;
        }
        false
    }
}

} // verus!
