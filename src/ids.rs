//! Sets of output identifiers.

use vstd::prelude::*;

verus! {

broadcast use vstd::seq_lib::group_seq_properties;

/// A finite set of identifiers, kept without duplicates.
pub struct IdSet {
    ids: Vec<String>,
}

/// The identifiers of `s`, as character sequences.
pub open spec fn id_views(s: Seq<String>) -> Seq<Seq<char>> {
    s.map_values(|x: String| x@)
}

impl View for IdSet {
    type V = Set<Seq<char>>;

    closed spec fn view(&self) -> Set<Seq<char>> {
        id_views(self.ids@).to_set()
    }
}

impl IdSet {
    pub closed spec fn wf(&self) -> bool {
        id_views(self.ids@).no_duplicates()
    }

    pub fn new() -> (r: Self)
        ensures
            r.wf(),
            r@ == Set::<Seq<char>>::empty(),
    {
        let r = IdSet { ids: Vec::new() };
        assert(id_views(r.ids@) =~= Seq::<Seq<char>>::empty());
        r
    }

    fn position(&self, id: &String) -> (r: Option<usize>)
        ensures
            r is None ==> !self@.contains(id@),
            r matches Some(i) ==> i < self.ids@.len() && self.ids@[i as int]@ == id@,
    {
        let mut i: usize = 0;
        while i < self.ids.len()
            invariant
                i <= self.ids@.len(),
                forall|j: int| 0 <= j < i ==> self.ids@[j]@ != id@,
            decreases self.ids@.len() - i,
        {
            if self.ids[i] == *id {
                return Some(i);
            }
            i = i + 1;
        }
        proof {
            if id_views(self.ids@).to_set().contains(id@) {
                let k = id_views(self.ids@).index_of(id@);
                assert(self.ids@[k]@ == id@);
            }
        }
        None
    }

    pub fn contains(&self, id: &String) -> (r: bool)
        ensures
            r == self@.contains(id@),
    {
        match self.position(id) {
            Some(i) => {
                assert(id_views(self.ids@)[i as int] == id@);
                true
            },
            None => false,
        }
    }

    pub fn len(&self) -> (r: usize)
        requires
            self.wf(),
        ensures
            r == self@.len(),
    {
        proof {
            id_views(self.ids@).unique_seq_to_set();
        }
        self.ids.len()
    }

    /// Adds `id`; returns whether it was absent.
    pub fn insert(&mut self, id: String) -> (r: bool)
        requires
            old(self).wf(),
        ensures
            final(self).wf(),
            r == !old(self)@.contains(id@),
            final(self)@ == old(self)@.insert(id@),
    {
        if self.contains(&id) {
            assert(self@.insert(id@) =~= self@);
            false
        } else {
            let ghost before = self.ids@;
            self.ids.push(id);
            assert(id_views(self.ids@) =~= id_views(before).push(id@));
            proof {
                id_views(before).lemma_push_to_set_commute(id@);
            }
            true
        }
    }

    /// Removes `id`; returns whether it was present.
    pub fn remove(&mut self, id: &String) -> (r: bool)
        requires
            old(self).wf(),
        ensures
            final(self).wf(),
            r == old(self)@.contains(id@),
            final(self)@ == old(self)@.remove(id@),
    {
        match self.position(id) {
            None => {
                assert(self@.remove(id@) =~= self@);
                false
            },
            Some(i) => {
                let ghost before = id_views(self.ids@);
                let _removed = self.ids.remove(i);
                assert(id_views(self.ids@) =~= before.remove(i as int));
                proof {
                    let after = id_views(self.ids@);
                    assert(before[i as int] == id@);
                    assert(before.contains(id@));
                    assert forall|y: Seq<char>|
                        after.to_set().contains(y) == before.to_set().remove(id@).contains(y) by {
                        if after.to_set().contains(y) {
                            assert(after.contains(y));
                            let k = after.index_of(y);
                            if k < i {
                                assert(before[k] == y);
                                assert(k != i);
                            } else {
                                assert(before[k + 1] == y);
                                assert(k + 1 != i);
                            }
                            assert(before.contains(y));
                            assert(y != id@);
                        }
                        if before.to_set().remove(id@).contains(y) {
                            assert(before.contains(y));
                            let k = before.index_of(y);
                            assert(k != i);
                            if k < i {
                                assert(after[k] == y);
                            } else {
                                assert(after[k - 1] == y);
                            }
                            assert(after.contains(y));
                        }
                    }
                    assert(after.to_set() =~= before.to_set().remove(id@));
                }
                true
            },
        }
    }

    /// The set of the identifiers in `ids`.
    pub fn from_vec(ids: Vec<String>) -> (r: Self)
        ensures
            r.wf(),
            r@ == id_views(ids@).to_set(),
    {
        let mut r = IdSet::new();
        let mut i: usize = 0;
        while i < ids.len()
            invariant
                r.wf(),
                i <= ids@.len(),
                r@ == id_views(ids@.subrange(0, i as int)).to_set(),
            decreases ids@.len() - i,
        {
            let id = ids[i].clone();
            let _fresh = r.insert(id);
            proof {
                assert(id_views(ids@.subrange(0, i + 1)) =~= id_views(ids@.subrange(0, i as int)).push(
                    ids@[i as int]@,
                ));
                id_views(ids@.subrange(0, i as int)).lemma_push_to_set_commute(ids@[i as int]@);
            }
            i = i + 1;
        }
        assert(ids@.subrange(0, ids@.len() as int) =~= ids@);
        r
    }

    /// Removes every identifier and hands them out.
    pub fn take_all(&mut self) -> (r: Vec<String>)
        requires
            old(self).wf(),
        ensures
            final(self).wf(),
            final(self)@ == Set::<Seq<char>>::empty(),
            id_views(r@).to_set() == old(self)@,
            id_views(r@).no_duplicates(),
    {
        let mut r: Vec<String> = Vec::new();
        std::mem::swap(&mut r, &mut self.ids);
        assert(id_views(self.ids@) =~= Seq::<Seq<char>>::empty());
        r
    }
}

} // verus!
