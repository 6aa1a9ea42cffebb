//! Bounded FIFO of free shared-memory regions, reused by best fit.

use std::collections::VecDeque;
use vstd::prelude::*;

use crate::MAX_CACHE_SIZE;

verus! {

/// A free region together with its capacity in bytes.
pub struct CachedRegion<H> {
    pub capacity: usize,
    pub region: H,
}

/// Index of the entry that best fits `len`: the smallest capacity that is at
/// least `len`, and among equal capacities the one inserted last.
pub open spec fn is_best_fit<H>(s: Seq<CachedRegion<H>>, len: usize, i: int) -> bool {
    &&& 0 <= i < s.len()
    &&& s[i].capacity >= len
    &&& forall|j: int| 0 <= j < s.len() && s[j].capacity >= len ==> s[i].capacity <= s[j].capacity
    &&& forall|j: int|
        i < j < s.len() && s[j].capacity >= len ==> s[i].capacity < s[j].capacity
}

/// Whether some entry has room for `len` bytes.
pub open spec fn has_fit<H>(s: Seq<CachedRegion<H>>, len: usize) -> bool {
    exists|j: int| 0 <= j < s.len() && s[j].capacity >= len
}

/// The contents after `r` is appended: the oldest entry leaves once the bound
/// is exceeded.
pub open spec fn after_push<H>(s: Seq<CachedRegion<H>>, r: CachedRegion<H>) -> Seq<
    CachedRegion<H>,
> {
    if s.len() + 1 > MAX_CACHE_SIZE {
        s.push(r).subrange(1, s.len() + 1 as int)
    } else {
        s.push(r)
    }
}

/// Appending to a cache within its bound keeps it within its bound.
pub proof fn lemma_push_stays_bounded<H>(s: Seq<CachedRegion<H>>, r: CachedRegion<H>)
    requires
        s.len() <= MAX_CACHE_SIZE,
    ensures
        after_push(s, r).len() <= MAX_CACHE_SIZE,
        after_push(s, r).last() == r,
{
}

pub struct ShmCache<H> {
    regions: VecDeque<CachedRegion<H>>,
}

impl<H> View for ShmCache<H> {
    type V = Seq<CachedRegion<H>>;

    closed spec fn view(&self) -> Seq<CachedRegion<H>> {
        self.regions@
    }
}

impl<H> ShmCache<H> {
    pub open spec fn wf(&self) -> bool {
        self@.len() <= MAX_CACHE_SIZE
    }

    pub fn new() -> (r: Self)
        ensures
            r.wf(),
            r@ == Seq::<CachedRegion<H>>::empty(),
    {
        ShmCache { regions: VecDeque::new() }
    }

    pub fn len(&self) -> (r: usize)
        ensures
            r == self@.len(),
    {
        self.regions.len()
    }

    /// Capacity of the entry at `i`, oldest first.
    pub fn capacity_at(&self, i: usize) -> (r: usize)
        requires
            i < self@.len(),
        ensures
            r == self@[i as int].capacity,
    {
        self.regions[i].capacity
    }

    /// Position of the best-fitting entry for `len`, if any has room.
    pub fn best_fit(&self, len: usize) -> (r: Option<usize>)
        ensures
            r is None <==> !has_fit(self@, len),
            r matches Some(i) ==> is_best_fit(self@, len, i as int),
    {
        let n = self.regions.len();
        let mut best: Option<usize> = None;
        let mut i: usize = n;
        while i > 0
            invariant
                n == self@.len(),
                i <= n,
                best is None ==> forall|j: int| i <= j < n ==> self@[j].capacity < len,
                best matches Some(b) ==> {
                    &&& i <= b < n
                    &&& self@[b as int].capacity >= len
                    &&& forall|j: int|
                        i <= j < n && self@[j].capacity >= len ==> self@[b as int].capacity
                            <= self@[j].capacity
                    &&& forall|j: int|
                        b < j < n && self@[j].capacity >= len ==> self@[b as int].capacity
                            < self@[j].capacity
                },
            decreases i,
        {
            i = i - 1;
            let c = self.regions[i].capacity;
            if c >= len {
                match best {
                    None => {
                        best = Some(i);
                    },
                    Some(b) => {
                        if c < self.regions[b].capacity {
                            best = Some(i);
                        }
                    },
                }
            }
        }
        proof {
            if best is None {
                assert(!has_fit(self@, len));
            }
        }
        best
    }

    /// Removes and returns the best-fitting entry for `len`, if any has room.
    pub fn take(&mut self, len: usize) -> (r: Option<CachedRegion<H>>)
        requires
            old(self).wf(),
        ensures
            final(self).wf(),
            r is None <==> !has_fit(old(self)@, len),
            r is None ==> final(self)@ == old(self)@,
            r matches Some(e) ==> exists|i: int|
                is_best_fit(old(self)@, len, i) && e == old(self)@[i] && final(self)@ == old(
                    self,
                )@.remove(i),
    {
        match self.best_fit(len) {
            Some(i) => self.regions.remove(i),
            None => None,
        }
    }

    /// Appends a free region; the oldest entry is dropped once there are more
    /// than the bound.
    pub fn push(&mut self, capacity: usize, region: H)
        requires
            old(self).wf(),
        ensures
            final(self).wf(),
            final(self)@ == after_push(old(self)@, CachedRegion { capacity, region }),
    {
        let ghost before = self@;
        self.regions.push_back(CachedRegion { capacity, region });
        if self.regions.len() > MAX_CACHE_SIZE {
            let _evicted = self.regions.pop_front();
        }
        assert(self@ =~= after_push(before, CachedRegion { capacity, region }));
    }
}

} // verus!
