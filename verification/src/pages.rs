//! Where the page of each status code is kept: an ordered map from the
//! number of the code to the place of its resource.

use std::collections::BTreeMap;
use vstd::prelude::*;

verus! {

broadcast use {vstd::std_specs::btree::group_btree_axioms, vstd::laws_cmp::group_laws_cmp};

/// The places of the status pages, by the number of their status code.
pub struct StatusPages {
    places: BTreeMap<u16, usize>,
}

impl View for StatusPages {
    type V = Map<u16, usize>;

    closed spec fn view(&self) -> Map<u16, usize> {
        self.places@
    }
}

impl StatusPages {
    /// No pages.
    pub fn new() -> (pages: StatusPages)
        ensures
            pages@ == Map::<u16, usize>::empty(),
    {
        StatusPages { places: BTreeMap::new() }
    }

    /// Keeps `place` as the place of the page for `code`, in place of what
    /// was kept for that code before.
    pub fn insert(&mut self, code: u16, place: usize)
        ensures
            final(self)@ == old(self)@.insert(code, place),
    {
        self.places.insert(code, place);
    }

    /// The place of the page for `code`, if there is one.
    pub fn get(&self, code: u16) -> (place: Option<usize>)
        ensures
            place == (if self@.contains_key(code) {
                Some(self@[code])
            } else {
                None
            }),
    {
        match self.places.get(&code) {
            Some(place) => Some(*place),
            None => None,
        }
    }
}

} // verus!
