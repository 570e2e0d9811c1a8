//! The books of a fixed pool of instances: which are at hand, in which order
//! they are lent, and which are out. Instances are named by their index.
//!
//! A permit stands for an instance at hand: it is taken with the instance, and
//! given back only once the instance is at hand again.

use vstd::prelude::*;

verus! {

/// A pool of `size` instances.
#[derive(Debug, Clone, PartialEq, Eq)]
pub struct HypervisorPool {
    /// The instances at hand, the next to be lent first.
    pub available: Vec<usize>,
    /// The instances that are out.
    pub lent: Vec<usize>,
    pub size: usize,
}

impl HypervisorPool {
    /// Every instance is either at hand or out, and in one place only.
    pub open spec fn wf(&self) -> bool {
        &&& self.available@.len() + self.lent@.len() == self.size
        &&& (self.available@ + self.lent@).no_duplicates()
        &&& forall|i: int|
            0 <= i < self.available@.len() + self.lent@.len() ==> #[trigger] (self.available@
                + self.lent@)[i] < self.size
    }

    /// How many callers can be served at once now.
    pub open spec fn permits(&self) -> nat {
        self.available@.len()
    }

    /// A pool with all its instances at hand, in order. `built` says of each
    /// instance whether it could be made: the pool is made only where all could,
    /// and otherwise the first that failed is returned.
    pub fn new(built: &Vec<bool>) -> (r: Result<Self, usize>)
        ensures
            is_filled(built@, r),
    {
        let size = built.len();
        let mut available: Vec<usize> = Vec::new();
        let mut i: usize = 0;
        while i < size
            invariant
                i <= size,
                size == built.len(),
                available@ == Seq::new(i as nat, |k: int| k as usize),
                forall|k: int| 0 <= k < i ==> #[trigger] built@[k],
            decreases size - i,
        {
            if !built[i] {
                return Err(i);
            }
            available.push(i);
            i = i + 1;
        }
        let lent: Vec<usize> = Vec::new();
        assert(available@ + lent@ =~= available@);
        Ok(HypervisorPool { available, lent, size })
    }

    /// Lends the instance that has been at hand longest. Where none is at hand
    /// the caller waits, and nothing changes.
    pub fn acquire(&mut self) -> (r: Option<usize>)
        requires
            old(self).wf(),
        ensures
            final(self).wf(),
            final(self).size == old(self).size,
            r is Some <==> old(self).permits() > 0,
            is_lent(*old(self), *final(self), r),
    {
        if self.available.len() == 0 {
            return None;
        }
        let ghost a = self.available@;
        let ghost l = self.lent@;
        let k = self.available.remove(0);
        self.lent.push(k);
        proof {
            assert(self.available@ =~= a.skip(1));
            let before = a + l;
            let after = self.available@ + self.lent@;
            assert forall|i: int, j: int|
                0 <= i < after.len() && 0 <= j < after.len() && i != j implies after[i]
                != after[j] by {
                let bi = if i == after.len() - 1 { 0 } else { i + 1 };
                let bj = if j == after.len() - 1 { 0 } else { j + 1 };
                assert(after[i] == before[bi]);
                assert(after[j] == before[bj]);
            }
            assert forall|i: int| 0 <= i < after.len() implies #[trigger] after[i] < self.size by {
                let bi = if i == after.len() - 1 { 0 } else { i + 1 };
                assert(after[i] == before[bi]);
            }
        }
        Some(k)
    }

    /// Takes a lent instance back, behind those at hand. What is not out is not
    /// taken.
    pub fn release(&mut self, k: usize) -> (r: bool)
        requires
            old(self).wf(),
        ensures
            final(self).wf(),
            final(self).size == old(self).size,
            is_returned(*old(self), *final(self), k, r),
    {
        let mut i: usize = 0;
        while i < self.lent.len()
            invariant
                i <= self.lent.len(),
                self.wf(),
                *self == *old(self),
                forall|j: int| 0 <= j < i ==> #[trigger] self.lent@[j] != k,
            decreases self.lent.len() - i,
        {
            if self.lent[i] == k {
                let ghost a = self.available@;
                let ghost l = self.lent@;
                let out = self.lent.remove(i);
                self.available.push(out);
                proof {
                    let before = a + l;
                    let after = self.available@ + self.lent@;
                    let n = a.len() as int;
                    let at = i as int;
                    assert forall|x: int| 0 <= x < after.len() implies #[trigger] after[x]
                        == before[back(x, n, at)] && 0 <= back(x, n, at) < before.len() by {}
                    assert forall|x: int, y: int|
                        0 <= x < after.len() && 0 <= y < after.len() && x != y implies after[x]
                        != after[y] by {
                        assert(after[x] == before[back(x, n, at)]);
                        assert(after[y] == before[back(y, n, at)]);
                    }
                    assert(self.lent@ == old(self).lent@.remove(at));
                }
                return true;
            }
            i = i + 1;
        }
        false
    }
}

// Where the item at `x` stood before the item `at` of the second list moved
// behind the first list, of `n` items.
spec fn back(x: int, n: int, at: int) -> int {
    if x < n {
        x
    } else if x == n {
        n + at
    } else if x - n - 1 < at {
        x - 1
    } else {
        x
    }
}

/// A permit implies an instance: while anything is not out, something is at
/// hand.
pub proof fn lemma_permit_implies_instance(p: HypervisorPool)
    requires
        p.wf(),
        p.lent@.len() < p.size,
    ensures
        p.permits() > 0,
{
}

/// Nothing is lent twice: what is at hand is not out.
pub proof fn lemma_no_double_lending(p: HypervisorPool, k: usize)
    requires
        p.wf(),
        p.available@.contains(k),
    ensures
        !p.lent@.contains(k),
{
    let all = p.available@ + p.lent@;
    let i = choose|i: int| 0 <= i < p.available@.len() && p.available@[i] == k;
    if p.lent@.contains(k) {
        let j = choose|j: int| 0 <= j < p.lent@.len() && p.lent@[j] == k;
        assert(all[i] == all[p.available@.len() + j]);
    }
}

/// Whether `r` is the instance that is lent, and `after` the pool then.
pub open spec fn is_lent(before: HypervisorPool, after: HypervisorPool, r: Option<usize>) -> bool {
    match r {
        Some(k) => {
            &&& k == before.available@[0]
            &&& after.available@ == before.available@.skip(1)
            &&& after.lent@ == before.lent@.push(k)
        },
        None => after == before,
    }
}

/// Whether `after` is the pool once `k` was given back, if `r` says that it was.
pub open spec fn is_returned(
    before: HypervisorPool,
    after: HypervisorPool,
    k: usize,
    r: bool,
) -> bool {
    &&& r == before.lent@.contains(k)
    &&& r ==> after.available@ == before.available@.push(k)
    &&& r ==> exists|i: int|
        0 <= i < before.lent@.len() && before.lent@[i] == k && after.lent@
            == #[trigger] before.lent@.remove(i)
    &&& !r ==> after == before
}

/// An instance that is lent was at hand and is not lent twice: it is out until
/// it is given back, and the others stay where they are. The one that waited
/// longest goes first.
pub proof fn lemma_lent_instances_are_out(
    before: HypervisorPool,
    after: HypervisorPool,
    k: usize,
    other: usize,
)
    requires
        before.wf(),
        before.permits() > 0,
        is_lent(before, after, Some(k)),
    ensures
        before.available@.contains(k) && !before.lent@.contains(k),
        after.lent@.contains(k) && !after.available@.contains(k),
        after.permits() + 1 == before.permits(),
        other != k ==> (after.available@.contains(other) <==> before.available@.contains(other)) && (
        after.lent@.contains(other) <==> before.lent@.contains(other)),
{
    assert(before.available@[0] == k);
    lemma_no_double_lending(before, k);
    assert(after.lent@[before.lent@.len() as int] == k);
    let all = before.available@ + before.lent@;
    if after.available@.contains(k) {
        let j = choose|j: int| 0 <= j < after.available@.len() && after.available@[j] == k;
        assert(all[j + 1] == k && all[0] == k);
    }
    if other != k {
        if before.available@.contains(other) {
            let j = choose|j: int| 0 <= j < before.available@.len() && before.available@[j] == other;
            assert(after.available@[j - 1] == other);
        }
        if after.available@.contains(other) {
            let j = choose|j: int| 0 <= j < after.available@.len() && after.available@[j] == other;
            assert(before.available@[j + 1] == other);
        }
        if before.lent@.contains(other) {
            let j = choose|j: int| 0 <= j < before.lent@.len() && before.lent@[j] == other;
            assert(after.lent@[j] == other);
        }
        if after.lent@.contains(other) {
            let j = choose|j: int| 0 <= j < after.lent@.len() && after.lent@[j] == other;
            assert(before.lent@[j] == other);
        }
    }
}

/// Only what is out is taken back, and then it is at hand again; giving back
/// anything else changes nothing.
pub proof fn lemma_returned_instances_are_at_hand(
    before: HypervisorPool,
    after: HypervisorPool,
    k: usize,
    r: bool,
)
    requires
        is_returned(before, after, k, r),
    ensures
        r <==> before.lent@.contains(k),
        r ==> after.available@.contains(k) && after.permits() == before.permits() + 1
            && after.lent@.len() + 1 == before.lent@.len(),
        !r ==> after == before,
{
    if r {
        assert(after.available@[before.available@.len() as int] == k);
    }
}

/// Whether `r` is the pool of the instances that were made, or the first that was
/// not.
pub open spec fn is_filled(built: Seq<bool>, r: Result<HypervisorPool, usize>) -> bool {
    match r {
        Ok(p) => {
            &&& p.wf()
            &&& p.size == built.len()
            &&& p.available@ == Seq::new(built.len(), |i: int| i as usize)
            &&& p.lent@.len() == 0
            &&& forall|i: int| 0 <= i < built.len() ==> #[trigger] built[i]
        },
        Err(k) => {
            &&& k < built.len()
            &&& !built[k as int]
            &&& forall|i: int| 0 <= i < k ==> #[trigger] built[i]
        },
    }
}

/// A pool is made of all instances or not at all: then each is at hand once, and
/// none is out. The instance that is told of is the first that failed.
pub proof fn lemma_pools_are_filled_or_not_made(
    built: Seq<bool>,
    r: Result<HypervisorPool, usize>,
    i: int,
)
    requires
        is_filled(built, r),
        0 <= i < built.len(),
        built.len() <= usize::MAX,
    ensures
        !built[i] ==> r is Err && r->Err_0 <= i,
        r matches Ok(p) ==> p.available@.contains(i as usize) && p.lent@.len() == 0 && p.permits()
            == built.len(),
        r matches Err(k) ==> k < built.len() && !built[k as int],
{
    if let Ok(p) = r {
        assert(p.available@[i] == i as usize);
    }
}

} // verus!
