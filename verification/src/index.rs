//! A secondary index: for each index key, the set of listing keys filed under it.
//! The set of an index key is created when the first listing key is filed under it.

use vstd::prelude::*;
use crate::text_map::TextMap;
use crate::text_set::TextSet;

verus! {

/// The listing keys filed under `key`; none where the index has no set for `key`.
pub open spec fn members_of(index: Map<Seq<char>, Set<Seq<char>>>, key: Seq<char>) -> Set<
    Seq<char>,
> {
    if index.contains_key(key) {
        index[key]
    } else {
        Set::empty()
    }
}

/// The index after `listing_key` was filed under `key`.
pub open spec fn index_add(
    index: Map<Seq<char>, Set<Seq<char>>>,
    key: Seq<char>,
    listing_key: Seq<char>,
) -> Map<Seq<char>, Set<Seq<char>>> {
    index.insert(key, members_of(index, key).insert(listing_key))
}

/// Every set of the index is finite.
pub open spec fn index_finite(index: Map<Seq<char>, Set<Seq<char>>>) -> bool {
    forall|key: Seq<char>| #[trigger] index.contains_key(key) ==> index[key].finite()
}

/// A secondary index from index keys to sets of listing keys. It is kept on two
/// levels: a directory gives each index key the number of its own sub-store, and
/// each sub-store holds the listing keys of one index key. A sub-store gets the
/// next free number when its index key is first used, so that no two index keys
/// ever share one.
#[derive(Debug, Clone)]
pub struct Index {
    directory: TextMap<usize>,
    sub_stores: Vec<TextSet>,
}

impl View for Index {
    type V = Map<Seq<char>, Set<Seq<char>>>;

    closed spec fn view(&self) -> Map<Seq<char>, Set<Seq<char>>> {
        Map::new(
            |key: Seq<char>| self.directory@.contains_key(key),
            |key: Seq<char>| self.sub_stores@[self.directory@[key] as int]@,
        )
    }
}

impl Index {
    /// The directory is well formed, it gives each index key an existing sub-store
    /// and no two index keys the same, and each sub-store is well formed.
    pub closed spec fn wf(&self) -> bool {
        &&& self.directory.wf()
        &&& forall|key: Seq<char>| #[trigger]
            self.directory@.contains_key(key) ==> self.directory@[key] < self.sub_stores@.len()
        &&& forall|key: Seq<char>, other: Seq<char>|
            #![trigger self.directory@[key], self.directory@[other]]
            self.directory@.contains_key(key) && self.directory@.contains_key(other) && key
                != other ==> self.directory@[key] != self.directory@[other]
        &&& forall|slot: int|
            0 <= slot < self.sub_stores@.len() ==> (#[trigger] self.sub_stores@[slot]).wf()
    }

    /// Every set of a well-formed index is finite.
    pub proof fn lemma_finite(&self)
        requires
            self.wf(),
        ensures
            index_finite(self@),
    {
        assert forall|key: Seq<char>| #[trigger] self@.contains_key(key) implies self@[key].finite() by {
            self.sub_stores@[self.directory@[key] as int].lemma_finite();
        }
    }

    /// The index without any set.
    pub fn new() -> (index: Self)
        ensures
            index.wf(),
            index@ == Map::<Seq<char>, Set<Seq<char>>>::empty(),
    {
        let index = Index { directory: TextMap::new(), sub_stores: Vec::new() };
        assert(index@ =~= Map::<Seq<char>, Set<Seq<char>>>::empty());
        index
    }

    /// The number of the sub-store of `index_key`, if it has one.
    fn sub_store_of(&self, index_key: &str) -> (found: Option<usize>)
        requires
            self.wf(),
        ensures
            found is Some == self@.contains_key(index_key@),
            found matches Some(slot) ==> slot < self.sub_stores@.len() && slot
                == self.directory@[index_key@] && self.sub_stores@[slot as int]@
                == self@[index_key@],
    {
        match self.directory.get(index_key) {
            Some(slot) => Some(*slot),
            None => None,
        }
    }

    /// Files `listing_key` under `index_key`, creating the set of `index_key`
    /// if this is its first listing key.
    pub fn add(&mut self, index_key: &str, listing_key: &str)
        requires
            old(self).wf(),
        ensures
            final(self).wf(),
            final(self)@ == index_add(old(self)@, index_key@, listing_key@),
    {
        match self.sub_store_of(index_key) {
            Some(slot) => {
                self.sub_stores[slot].insert(String::from_str(listing_key));
                assert(self@ =~= index_add(old(self)@, index_key@, listing_key@));
            },
            None => {
                let mut set = TextSet::new();
                set.insert(String::from_str(listing_key));
                let slot = self.sub_stores.len();
                self.sub_stores.push(set);
                self.directory.insert(String::from_str(index_key), slot);
                assert(self@ =~= index_add(old(self)@, index_key@, listing_key@));
            },
        }
    }

    /// The number of listing keys filed under `index_key`; zero where it has no set.
    pub fn count(&self, index_key: &str) -> (n: usize)
        requires
            self.wf(),
        ensures
            members_of(self@, index_key@).finite(),
            n == members_of(self@, index_key@).len(),
    {
        match self.sub_store_of(index_key) {
            Some(slot) => self.sub_stores[slot].len(),
            None => 0,
        }
    }

    /// Tells whether `listing_key` is filed under `index_key`.
    pub fn contains(&self, index_key: &str, listing_key: &str) -> (found: bool)
        requires
            self.wf(),
        ensures
            found == members_of(self@, index_key@).contains(listing_key@),
    {
        match self.sub_store_of(index_key) {
            Some(slot) => self.sub_stores[slot].contains(listing_key),
            None => false,
        }
    }

    /// The listing keys filed under `index_key`, in the order in which they were filed.
    pub fn members(&self, index_key: &str) -> (keys: Vec<String>)
        requires
            self.wf(),
        ensures
            crate::text::texts_of(keys@).no_duplicates(),
            crate::text::texts_of(keys@).to_set() == members_of(self@, index_key@),
    {
        match self.sub_store_of(index_key) {
            Some(slot) => self.sub_stores[slot].to_vec(),
            None => {
                let keys: Vec<String> = Vec::new();
                assert(crate::text::texts_of(keys@).to_set() =~= Set::<Seq<char>>::empty());
                keys
            },
        }
    }
}

/// The three indices that are kept over the listing store.
#[derive(Debug, Clone, Copy, PartialEq, Eq, Structural)]
pub enum IndexName {
    /// Listing keys by the account that lists them.
    ByLister,
    /// Listing keys by the collection that the item belongs to.
    BySourceCollection,
    /// Listing keys by category.
    ByCategory,
}

/// The mathematical value of an `IndexMaintainer`.
pub struct IndicesView {
    pub by_lister: Map<Seq<char>, Set<Seq<char>>>,
    pub by_collection: Map<Seq<char>, Set<Seq<char>>>,
    pub by_category: Map<Seq<char>, Set<Seq<char>>>,
}

impl IndicesView {
    /// The index of that name.
    pub open spec fn named(self, name: IndexName) -> Map<Seq<char>, Set<Seq<char>>> {
        match name {
            IndexName::ByLister => self.by_lister,
            IndexName::BySourceCollection => self.by_collection,
            IndexName::ByCategory => self.by_category,
        }
    }

    /// The indices after `listing_key` was filed under `key` in the index of that
    /// name; the other two are as they were.
    pub open spec fn add(self, name: IndexName, key: Seq<char>, listing_key: Seq<char>) -> IndicesView {
        match name {
            IndexName::ByLister => IndicesView {
                by_lister: index_add(self.by_lister, key, listing_key),
                ..self
            },
            IndexName::BySourceCollection => IndicesView {
                by_collection: index_add(self.by_collection, key, listing_key),
                ..self
            },
            IndexName::ByCategory => IndicesView {
                by_category: index_add(self.by_category, key, listing_key),
                ..self
            },
        }
    }
}

/// The keeper of the three indices.
#[derive(Debug, Clone)]
pub struct IndexMaintainer {
    by_lister: Index,
    by_collection: Index,
    by_category: Index,
}

impl View for IndexMaintainer {
    type V = IndicesView;

    closed spec fn view(&self) -> IndicesView {
        IndicesView {
            by_lister: self.by_lister@,
            by_collection: self.by_collection@,
            by_category: self.by_category@,
        }
    }
}

impl IndexMaintainer {
    /// Each of the three indices is well formed.
    pub closed spec fn wf(&self) -> bool {
        &&& self.by_lister.wf()
        &&& self.by_collection.wf()
        &&& self.by_category.wf()
    }

    /// Every set of well-formed indices is finite.
    pub proof fn lemma_finite(&self)
        requires
            self.wf(),
        ensures
            index_finite(self@.by_lister),
            index_finite(self@.by_collection),
            index_finite(self@.by_category),
    {
        self.by_lister.lemma_finite();
        self.by_collection.lemma_finite();
        self.by_category.lemma_finite();
    }

    /// Three indices without any set.
    pub fn new() -> (indices: Self)
        ensures
            indices.wf(),
            indices@.by_lister == Map::<Seq<char>, Set<Seq<char>>>::empty(),
            indices@.by_collection == Map::<Seq<char>, Set<Seq<char>>>::empty(),
            indices@.by_category == Map::<Seq<char>, Set<Seq<char>>>::empty(),
    {
        IndexMaintainer {
            by_lister: Index::new(),
            by_collection: Index::new(),
            by_category: Index::new(),
        }
    }

    /// The index of that name.
    pub fn index(&self, name: IndexName) -> (index: &Index)
        requires
            self.wf(),
        ensures
            index.wf(),
            index@ == self@.named(name),
    {
        match name {
            IndexName::ByLister => &self.by_lister,
            IndexName::BySourceCollection => &self.by_collection,
            IndexName::ByCategory => &self.by_category,
        }
    }

    /// Files `listing_key` under `index_key` in the index of that name, creating
    /// the set of `index_key` if this is its first listing key.
    pub fn add(&mut self, name: IndexName, index_key: &str, listing_key: &str)
        requires
            old(self).wf(),
        ensures
            final(self).wf(),
            final(self)@ == old(self)@.add(name, index_key@, listing_key@),
    {
        match name {
            IndexName::ByLister => self.by_lister.add(index_key, listing_key),
            IndexName::BySourceCollection => self.by_collection.add(index_key, listing_key),
            IndexName::ByCategory => self.by_category.add(index_key, listing_key),
        }
    }

    /// The number of listing keys filed under `index_key` in the index of that
    /// name; zero where it has no set.
    pub fn count(&self, name: IndexName, index_key: &str) -> (n: usize)
        requires
            self.wf(),
        ensures
            members_of(self@.named(name), index_key@).finite(),
            n == members_of(self@.named(name), index_key@).len(),
    {
        self.index(name).count(index_key)
    }
}

} // verus!
