use vstd::prelude::*;
use threshold_crypto::SignatureShare;

verus! {

/// A subset of `{false, true}`.
#[derive(Clone, Copy, Debug, PartialEq, Eq, Structural)]
pub struct BoolSet {
    pub has_false: bool,
    pub has_true: bool,
}

impl View for BoolSet {
    type V = Set<bool>;

    open spec fn view(&self) -> Set<bool> {
        Set::new(|b: bool| if b { self.has_true } else { self.has_false })
    }
}

impl BoolSet {
    pub open spec fn has(self, b: bool) -> bool {
        if b { self.has_true } else { self.has_false }
    }

    pub open spec fn with(self, b: bool) -> BoolSet {
        if b {
            BoolSet { has_false: self.has_false, has_true: true }
        } else {
            BoolSet { has_false: true, has_true: self.has_true }
        }
    }

    pub open spec fn subset_of(self, other: BoolSet) -> bool {
        (self.has_false ==> other.has_false) && (self.has_true ==> other.has_true)
    }

    pub open spec fn size(self) -> nat {
        (if self.has_false { 1nat } else { 0nat }) + (if self.has_true { 1nat } else { 0nat })
    }

    pub fn empty() -> (r: BoolSet)
        ensures
            r == (BoolSet { has_false: false, has_true: false }),
            r@ == Set::<bool>::empty(),
    {
        let r = BoolSet { has_false: false, has_true: false };
        assert(r@ =~= Set::<bool>::empty());
        r
    }

    pub fn single(b: bool) -> (r: BoolSet)
        ensures
            r == BoolSet::empty_spec().with(b),
            r@ == set![b],
    {
        let r = BoolSet { has_false: !b, has_true: b };
        assert(r@ =~= set![b]);
        r
    }

    pub open spec fn empty_spec() -> BoolSet {
        BoolSet { has_false: false, has_true: false }
    }

    /// The set of the values listed in `values`.
    pub fn from_values(values: &Vec<bool>) -> (r: BoolSet)
        ensures
            r@ == values@.to_set(),
    {
        let mut r = BoolSet { has_false: false, has_true: false };
        let mut i: usize = 0;
        while i < values.len()
            invariant
                0 <= i <= values.len(),
                forall|j: int| 0 <= j < i ==> r.has(#[trigger] values@[j]),
                forall|b: bool| #[trigger] r.has(b) ==> exists|j: int| 0 <= j < i && values@[j] == b,
            decreases values.len() - i,
        {
            let ghost old_r = r;
            if values[i] {
                r.has_true = true;
            } else {
                r.has_false = true;
            }
            assert forall|b: bool| #[trigger] r.has(b) implies exists|j: int|
                0 <= j < i + 1 && values@[j] == b by {
                if b != values@[i as int] {
                    assert(old_r.has(b));
                }
            }
            i += 1;
        }
        assert(r@ =~= values@.to_set()) by {
            assert forall|b: bool| r@.contains(b) <==> values@.contains(b) by {
                if values@.contains(b) {
                    let j = choose|j: int| 0 <= j < values@.len() && values@[j] == b;
                    assert(r.has(values@[j]));
                }
                if r.has(b) {
                    let j = choose|j: int| 0 <= j < i && values@[j] == b;
                    assert(values@.contains(values@[j]));
                }
            }
        }
        r
    }

    /// The members, `false` first.
    pub fn to_values(&self) -> (r: Vec<bool>)
        ensures
            r@.to_set() == self@,
            r@.len() == self.size(),
            r@.no_duplicates(),
    {
        let mut r: Vec<bool> = Vec::new();
        if self.has_false {
            r.push(false);
        }
        if self.has_true {
            r.push(true);
        }
        assert(r@.to_set() =~= self@) by {
            assert forall|b: bool| r@.to_set().contains(b) <==> self@.contains(b) by {
                assert(self@.contains(b) == self.has(b));
                if self.has(b) {
                    if b && self.has_false {
                        assert(r@[1] == b);
                    } else {
                        assert(r@[0] == b);
                    }
                }
            }
        }
        r
    }

    pub fn contains(&self, b: bool) -> (r: bool)
        ensures
            r == self.has(b),
            r == self@.contains(b),
    {
        if b { self.has_true } else { self.has_false }
    }

    pub fn len(&self) -> (r: usize)
        ensures
            r == self.size(),
    {
        (if self.has_false { 1 } else { 0 }) + (if self.has_true { 1 } else { 0 })
    }

    pub fn is_subset(&self, other: &BoolSet) -> (r: bool)
        ensures
            r == self.subset_of(*other),
            r == self@.subset_of(other@),
    {
        assert(self@.contains(false) == self.has_false && self@.contains(true) == self.has_true);
        assert(other@.contains(false) == other.has_false && other@.contains(true) == other.has_true);
        (!self.has_false || other.has_false) && (!self.has_true || other.has_true)
    }
}

/// The four kinds of message of one binary-agreement round.
#[derive(Clone, Debug)]
pub enum AsyncBinaryAgreementMessageType {
    Val { estimate: bool },
    Aux { accepted_estimates: BoolSet },
    Conf { feasible_values: BoolSet, partial_signature: SignatureShare },
    Finish { value: bool },
}

/// A binary-agreement message, tagged with its round.
#[derive(Clone, Debug)]
pub struct AsyncBinaryAgreementMessage {
    pub round: usize,
    pub message_type: AsyncBinaryAgreementMessageType,
}

impl AsyncBinaryAgreementMessage {
    pub fn new(message_type: AsyncBinaryAgreementMessageType, round: usize) -> (r: Self)
        ensures
            r.round == round,
            r.message_type == message_type,
    {
        AsyncBinaryAgreementMessage { round, message_type }
    }

    pub fn round(&self) -> (r: usize)
        ensures
            r == self.round,
    {
        self.round
    }

    pub fn message_type(&self) -> (r: &AsyncBinaryAgreementMessageType)
        ensures
            *r == self.message_type,
    {
        &self.message_type
    }

    pub fn into_inner(self) -> (r: (usize, AsyncBinaryAgreementMessageType))
        ensures
            r == (self.round, self.message_type),
    {
        (self.round, self.message_type)
    }
}

} // verus!
