//! Regions that were handed to the daemon and wait for their drop token.

use std::collections::HashMap;
use vstd::prelude::*;

verus! {

broadcast use vstd::std_specs::hash::group_hash_axioms;

/// A token minted for one shared-memory send; its return means that every
/// receiver is done with the region.
#[derive(Clone, Copy, Debug, PartialEq, Eq, Hash, Structural)]
pub struct DropToken {
    pub id: u64,
}

/// Mapping from outstanding drop token to the region it keeps alive.
pub struct DropTokenTracker<H> {
    regions: HashMap<u64, H>,
}

impl<H> View for DropTokenTracker<H> {
    type V = Map<u64, H>;

    closed spec fn view(&self) -> Map<u64, H> {
        self.regions@
    }
}

impl<H> DropTokenTracker<H> {
    pub fn new() -> (r: Self)
        ensures
            r@ == Map::<u64, H>::empty(),
    {
        DropTokenTracker { regions: HashMap::new() }
    }

    pub fn len(&self) -> (r: usize)
        ensures
            r == self@.len(),
    {
        self.regions.len()
    }

    pub fn is_empty(&self) -> (r: bool)
        ensures
            r == (self@.len() == 0),
    {
        self.regions.len() == 0
    }

    pub fn contains(&self, token: DropToken) -> (r: bool)
        ensures
            r == self@.contains_key(token.id),
    {
        self.regions.contains_key(&token.id)
    }

    /// Keeps `region` alive until `token` comes back.
    pub fn insert(&mut self, token: DropToken, region: H)
        ensures
            final(self)@ == old(self)@.insert(token.id, region),
    {
        let _previous = self.regions.insert(token.id, region);
    }

    /// Releases the region of `token`, if it is outstanding.
    pub fn remove(&mut self, token: DropToken) -> (r: Option<H>)
        ensures
            final(self)@ == old(self)@.remove(token.id),
            r is Some <==> old(self)@.contains_key(token.id),
            r matches Some(h) ==> h == old(self)@[token.id],
    {
        self.regions.remove(&token.id)
    }
}

} // verus!
