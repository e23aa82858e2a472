//! The set of pod names for which a tail worker has been spawned. It only
//! ever grows: a name stays in it even after that pod's worker has ended,
//! which is what makes spawning idempotent across discovery ticks.

use vstd::prelude::*;
use crate::text;

verus! {

/// The names of every pod that has ever had a tail worker spawned for it.
pub struct TailedSet {
    names: Vec<String>,
}

impl TailedSet {
    /// The names in insertion order.
    pub closed spec fn names_seq(&self) -> Seq<Seq<char>> {
        self.names.deep_view()
    }

    /// No name is recorded twice.
    pub open spec fn wf(&self) -> bool {
        self.names_seq().no_duplicates()
    }

    /// Whether a worker has already been spawned for `name`.
    pub open spec fn has(&self, name: Seq<char>) -> bool {
        self.names_seq().contains(name)
    }

    /// An empty set.
    pub fn new() -> (r: TailedSet)
        ensures
            r.names_seq() == Seq::<Seq<char>>::empty(),
            r.wf(),
    {
        let r = TailedSet { names: Vec::new() };
        proof {
            assert(r.names_seq() =~= Seq::<Seq<char>>::empty());
        }
        r
    }

    /// How many pods have ever been tailed.
    pub fn len(&self) -> (r: usize)
        ensures
            r == self.names_seq().len(),
    {
        self.names.len()
    }

    /// Membership test.
    pub fn contains_name(&self, name: &str) -> (r: bool)
        ensures
            r == self.has(name@),
    {
        let n = self.names.len();
        let mut i: usize = 0;
        while i < n
            invariant
                n == self.names_seq().len(),
                self.names_seq().len() == self.names@.len(),
                forall|k: int|
                    0 <= k < self.names_seq().len() ==> self.names_seq()[k] == self.names@[k]@,
                0 <= i <= n,
                forall|k: int| 0 <= k < i ==> self.names_seq()[k] != name@,
            decreases n - i,
        {
            if text::str_eq(self.names[i].as_str(), name) {
                proof {
                    assert(self.names_seq()[i as int] == name@);
                }
                return true;
            }
            i = i + 1;
        }
        false
    }

    /// Records that a worker was spawned for `name`.
    pub fn insert(&mut self, name: String)
        requires
            old(self).wf(),
            !old(self).has(name@),
        ensures
            final(self).wf(),
            final(self).names_seq() == old(self).names_seq().push(name@),
            forall|n: Seq<char>| final(self).has(n) <==> old(self).has(n) || n == name@,
    {
        let ghost before = self.names.deep_view();
        self.names.push(name);
        proof {
            assert(self.names.deep_view() =~= before.push(name@));
            assert forall|n: Seq<char>| self.has(n) <==> old(self).has(n) || n == name@ by {
                let after = self.names.deep_view();
                if old(self).has(n) {
                    let i = choose|i: int| 0 <= i < before.len() && before[i] == n;
                    assert(after[i] == n);
                }
                if n == name@ {
                    assert(after[after.len() - 1] == n);
                }
                if self.has(n) {
                    let i = choose|i: int| 0 <= i < after.len() && after[i] == n;
                    if i < before.len() {
                        assert(before[i] == n);
                    }
                }
            }
        }
    }
}

} // verus!
