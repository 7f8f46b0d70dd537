//! The listing store: the primary table from listing keys to listings.

use vstd::prelude::*;
use crate::listing::{Listing, ListingView};
use crate::text_map::TextMap;

verus! {

/// The primary table of listings. Its view maps each listing key to the value of
/// the listing stored under it.
#[derive(Debug, Clone)]
pub struct ListingStore {
    listings: TextMap<Listing>,
}

impl View for ListingStore {
    type V = Map<Seq<char>, ListingView>;

    closed spec fn view(&self) -> Map<Seq<char>, ListingView> {
        self.listings@
    }
}

impl ListingStore {
    /// The table and each stored listing are well formed.
    pub closed spec fn wf(&self) -> bool {
        &&& self.listings.wf()
        &&& forall|key: Seq<char>| #[trigger]
            self.listings@.contains_key(key) ==> self.listings.entry(key).wf()
    }

    /// The store without any listing.
    pub fn new() -> (store: Self)
        ensures
            store.wf(),
            store@ == Map::<Seq<char>, ListingView>::empty(),
    {
        ListingStore { listings: TextMap::new() }
    }

    /// Stores `listing` under `key`, in place of the listing that was stored there,
    /// and returns the listing that it replaced.
    pub fn put(&mut self, key: String, listing: Listing) -> (previous: Option<Listing>)
        requires
            old(self).wf(),
            listing.wf(),
        ensures
            final(self).wf(),
            final(self)@ == old(self)@.insert(key@, listing@),
            previous is Some == old(self)@.contains_key(key@),
            previous matches Some(p) ==> p.wf() && p@ == old(self)@[key@],
    {
        proof {
            self.listings.lemma_view();
        }
        self.listings.insert(key, listing)
    }

    /// The listing stored under `key`, if there is one.
    pub fn get(&self, key: &str) -> (found: Option<&Listing>)
        requires
            self.wf(),
        ensures
            found is Some == self@.contains_key(key@),
            found matches Some(l) ==> l.wf() && l@ == self@[key@],
    {
        self.listings.get(key)
    }

    /// The number of listings.
    pub fn len(&self) -> (n: usize)
        requires
            self.wf(),
        ensures
            self@.dom().finite(),
            n == self@.dom().len(),
    {
        self.listings.len()
    }
}

} // verus!
