//! A finite map keyed by text, kept as two parallel vectors in which no key
//! occurs twice.

use vstd::prelude::*;
use crate::text::texts_of;

verus! {

/// A finite map from texts to values of type `V`. Its view maps the character
/// sequence of each key to the view of the value stored under it.
#[derive(Debug, Clone)]
pub struct TextMap<V> {
    keys: Vec<String>,
    values: Vec<V>,
}

impl<V: View> View for TextMap<V> {
    type V = Map<Seq<char>, V::V>;

    closed spec fn view(&self) -> Map<Seq<char>, V::V> {
        Map::new(|k: Seq<char>| self.key_texts().contains(k), |k: Seq<char>| self.entry(k)@)
    }
}

/// In a sequence without duplicates, each item is found at its own place.
pub proof fn lemma_index_of_place(texts: Seq<Seq<char>>, i: int)
    requires
        texts.no_duplicates(),
        0 <= i < texts.len(),
    ensures
        texts.contains(texts[i]),
        texts.index_of(texts[i]) == i,
{
    let j = texts.index_of(texts[i]);
    assert(0 <= j < texts.len() && texts[j] == texts[i]);
}

impl<V: View> TextMap<V> {
    /// The keys in the order in which they are stored.
    pub closed spec fn key_texts(&self) -> Seq<Seq<char>> {
        texts_of(self.keys@)
    }

    /// The value stored under `key`, for a key of the map.
    pub closed spec fn entry(&self, key: Seq<char>) -> V {
        self.values@[self.key_texts().index_of(key)]
    }

    /// Every key has one value, and no key is stored twice.
    pub closed spec fn wf(&self) -> bool {
        &&& self.keys@.len() == self.values@.len()
        &&& self.key_texts().no_duplicates()
    }

    /// The view of a well-formed map has a finite domain, one key for each stored
    /// key, and holds the view of each stored value.
    pub proof fn lemma_view(&self)
        requires
            self.wf(),
        ensures
            self@.dom().finite(),
            self@.dom().len() == self.key_texts().len(),
            self@.dom() == self.key_texts().to_set(),
            forall|k: Seq<char>| #[trigger] self@.contains_key(k) ==> self@[k] == self.entry(k)@,
    {
        vstd::seq_lib::seq_to_set_is_finite(self.key_texts());
        self.key_texts().unique_seq_to_set();
        assert(self@.dom() =~= self.key_texts().to_set());
    }

    /// The empty map.
    pub fn new() -> (map: Self)
        ensures
            map.wf(),
            map@ == Map::<Seq<char>, V::V>::empty(),
    {
        let map = TextMap { keys: Vec::new(), values: Vec::new() };
        assert(map@ =~= Map::<Seq<char>, V::V>::empty());
        map
    }

    /// The number of keys.
    pub fn len(&self) -> (n: usize)
        requires
            self.wf(),
        ensures
            self@.dom().finite(),
            n == self@.dom().len(),
    {
        proof {
            self.lemma_view();
        }
        self.keys.len()
    }

    /// The place of `key` in the vectors, if it is a key of the map.
    fn position(&self, key: &str) -> (at: Option<usize>)
        requires
            self.wf(),
        ensures
            match at {
                Some(i) => i < self.keys@.len() && self.key_texts()[i as int] == key@
                    && self.key_texts().index_of(key@) == i,
                None => !self.key_texts().contains(key@),
            },
    {
        let wanted = String::from_str(key);
        let mut i: usize = 0;
        while i < self.keys.len()
            invariant
                self.wf(),
                i <= self.keys.len(),
                wanted@ == key@,
                forall|j: int| 0 <= j < i ==> self.key_texts()[j] != key@,
            decreases self.keys.len() - i,
        {
            if self.keys[i] == wanted {
                proof {
                    lemma_index_of_place(self.key_texts(), i as int);
                }
                return Some(i);
            }
            i += 1;
        }
        None
    }

    /// Tells whether `key` is a key of the map.
    pub fn contains_key(&self, key: &str) -> (found: bool)
        requires
            self.wf(),
        ensures
            found == self@.contains_key(key@),
    {
        self.position(key).is_some()
    }

    /// The value stored under `key`, if there is one.
    pub fn get(&self, key: &str) -> (found: Option<&V>)
        requires
            self.wf(),
        ensures
            found is Some == self@.contains_key(key@),
            found matches Some(v) ==> *v == self.entry(key@) && v@ == self@[key@],
    {
        match self.position(key) {
            Some(i) => Some(&self.values[i]),
            None => None,
        }
    }

    /// Stores `value` under `key`, in place of the value that was stored there, and
    /// returns the value that it replaced.
    pub fn insert(&mut self, key: String, value: V) -> (previous: Option<V>)
        requires
            old(self).wf(),
        ensures
            final(self).wf(),
            final(self)@ == old(self)@.insert(key@, value@),
            final(self).entry(key@) == value,
            forall|k: Seq<char>|
                k != key@ && old(self)@.contains_key(k) ==> #[trigger] final(self).entry(k) == old(
                    self,
                ).entry(k),
            previous == if old(self)@.contains_key(key@) {
                Some(old(self).entry(key@))
            } else {
                None::<V>
            },
    {
        match self.position(key.as_str()) {
            Some(i) => {
                let mut value = value;
                core::mem::swap(&mut self.values[i], &mut value);
                assert(self.key_texts() == old(self).key_texts());
                assert(self@ =~= old(self)@.insert(key@, self.entry(key@)@));
                Some(value)
            },
            None => {
                let ghost place = self.keys@.len() as int;
                self.keys.push(key);
                self.values.push(value);
                proof {
                    let before = old(self).key_texts();
                    let after = self.key_texts();
                    assert(after =~= before.push(key@));
                    lemma_index_of_place(after, place);
                    assert forall|k: Seq<char>| before.contains(k) implies after.contains(k)
                        && after.index_of(k) == before.index_of(k) by {
                        lemma_index_of_place(after, before.index_of(k));
                    }
                    assert forall|k: Seq<char>| after.contains(k) && k != key@ implies before.contains(
                        k,
                    ) by {
                        assert(before[after.index_of(k)] == k);
                    }
                    assert(self@ =~= old(self)@.insert(key@, value@));
                }
                None
            },
        }
    }
}

} // verus!
