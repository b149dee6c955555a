//! The set of distinct application values a node has observed.
//!
//! For broadcast-style protocols the node accumulates values: the set
//! grows monotonically, never shrinks, and a duplicate insert is a no-op.
//! The representation keeps one copy of each value, in first-seen order,
//! but only the set of values is part of the contract.

use vstd::prelude::*;

verus! {

/// Appending one element to a sequence adds exactly that element to the
/// set of its values.
pub proof fn lemma_to_set_push<A>(s: Seq<A>, v: A)
    ensures
        s.push(v).to_set() == s.to_set().insert(v),
{
    assert forall|x: A| s.push(v).contains(x) implies s.contains(x) || x == v by {
        let k = choose|k: int| 0 <= k < s.push(v).len() && #[trigger] s.push(v)[k] == x;
        if k < s.len() {
            assert(s[k] == x);
        }
    }
    assert forall|x: A| s.contains(x) implies s.push(v).contains(x) by {
        let k = choose|k: int| 0 <= k < s.len() && #[trigger] s[k] == x;
        assert(s.push(v)[k] == x);
    }
    assert(s.push(v)[s.len() as int] == v);
    assert(s.push(v).contains(v));
    assert(s.push(v).to_set() =~= s.to_set().insert(v));
}

/// An insert-only set of observed values.
pub struct ValueSet {
    values: Vec<usize>,
}

impl View for ValueSet {
    type V = Set<usize>;

    closed spec fn view(&self) -> Set<usize> {
        self.values@.to_set()
    }
}

impl ValueSet {
    /// Internal well-formedness: one copy of each value.  Constructors
    /// establish it and mutators preserve it.
    pub closed spec fn wf(&self) -> bool {
        self.values@.no_duplicates()
    }

    /// The empty set of observed values.
    pub fn new() -> (s: ValueSet)
        ensures
            s@ == Set::<usize>::empty(),
            s.wf(),
    {
        let s = ValueSet { values: Vec::new() };
        proof {
            assert(s@ =~= Set::<usize>::empty());
        }
        s
    }

    /// Whether `v` has been observed.
    pub fn contains(&self, v: usize) -> (r: bool)
        ensures
            r == self@.contains(v),
    {
        let n = self.values.len();
        let mut i: usize = 0;
        while i < n
            invariant
                n == self.values.len(),
                i <= n,
                forall|j: int| 0 <= j < i ==> self.values@[j] != v,
            decreases n - i,
        {
            if self.values[i] == v {
                proof {
                    assert(self.values@.contains(v));
                }
                return true;
            }
            i = i + 1;
        }
        proof {
            assert(!self.values@.contains(v));
        }
        false
    }

    /// Observe `v`: the set afterwards is the old set with `v` added, so a
    /// duplicate insert changes nothing.  Returns whether `v` was new.
    pub fn insert(&mut self, v: usize) -> (newly: bool)
        requires
            old(self).wf(),
        ensures
            final(self)@ == old(self)@.insert(v),
            newly == !old(self)@.contains(v),
            final(self).wf(),
    {
        let newly = !self.contains(v);
        if newly {
            proof {
                assert(self.values@.push(v).no_duplicates());
            }
            self.values.push(v);
            proof {
                lemma_to_set_push(old(self).values@, v);
            }
        } else {
            proof {
                assert(self@ =~= old(self)@.insert(v));
            }
        }
        newly
    }

    /// Observe every value of `other`: the set afterwards is the union.
    pub fn merge(&mut self, other: &Vec<usize>)
        requires
            old(self).wf(),
        ensures
            final(self)@ == old(self)@ + other@.to_set(),
            final(self).wf(),
    {
        let n = other.len();
        let mut i: usize = 0;
        while i < n
            invariant
                n == other.len(),
                i <= n,
                self.wf(),
                self@ == old(self)@ + other@.subrange(0, i as int).to_set(),
            decreases n - i,
        {
            self.insert(other[i]);
            proof {
                let prefix = other@.subrange(0, i as int);
                assert(other@.subrange(0, i + 1 as int) =~= prefix.push(other@[i as int]));
                lemma_to_set_push(prefix, other@[i as int]);
                assert(self@ =~= old(self)@ + other@.subrange(0, i + 1 as int).to_set());
            }
            i = i + 1;
        }
        proof {
            assert(other@.subrange(0, n as int) =~= other@);
            assert(self@ =~= old(self)@ + other@.to_set());
        }
    }

    /// The observed values, one copy of each, for a read reply.
    pub fn to_vec(&self) -> (r: Vec<usize>)
        requires
            self.wf(),
        ensures
            r@.to_set() == self@,
            r@.no_duplicates(),
    {
        let n = self.values.len();
        let mut r: Vec<usize> = Vec::new();
        let mut i: usize = 0;
        while i < n
            invariant
                n == self.values.len(),
                i <= n,
                r@ == self.values@.subrange(0, i as int),
            decreases n - i,
        {
            r.push(self.values[i]);
            proof {
                assert(r@ =~= self.values@.subrange(0, i + 1 as int));
            }
            i = i + 1;
        }
        proof {
            assert(r@ =~= self.values@);
        }
        r
    }
}

} // verus!
