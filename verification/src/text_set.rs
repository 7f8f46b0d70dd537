//! A finite set of texts, kept as a vector in which no text occurs twice.

use vstd::prelude::*;
use crate::text::texts_of;

verus! {

/// A finite set of texts. Its view is the set of the character sequences it holds.
#[derive(Debug, Clone)]
pub struct TextSet {
    items: Vec<String>,
}

impl View for TextSet {
    type V = Set<Seq<char>>;

    closed spec fn view(&self) -> Set<Seq<char>> {
        self.texts().to_set()
    }
}

impl TextSet {
    /// The members in the order in which they were first inserted.
    pub closed spec fn texts(&self) -> Seq<Seq<char>> {
        texts_of(self.items@)
    }

    /// No text is stored twice.
    pub closed spec fn wf(&self) -> bool {
        self.texts().no_duplicates()
    }

    /// A well-formed set is finite and has as many members as it stores texts.
    pub proof fn lemma_finite(&self)
        requires
            self.wf(),
        ensures
            self@.finite(),
            self@.len() == self.texts().len(),
            forall|t: Seq<char>| self@.contains(t) <==> self.texts().contains(t),
    {
        vstd::seq_lib::seq_to_set_is_finite(self.texts());
        self.texts().unique_seq_to_set();
    }

    /// The empty set.
    pub fn new() -> (set: Self)
        ensures
            set.wf(),
            set@ == Set::<Seq<char>>::empty(),
    {
        let set = TextSet { items: Vec::new() };
        assert(set.texts() =~= Seq::<Seq<char>>::empty());
        assert(set@ =~= Set::<Seq<char>>::empty());
        set
    }

    /// The number of members.
    pub fn len(&self) -> (n: usize)
        requires
            self.wf(),
        ensures
            self@.finite(),
            n == self@.len(),
    {
        proof {
            self.lemma_finite();
        }
        self.items.len()
    }

    /// Tells whether `text` is a member.
    pub fn contains(&self, text: &str) -> (found: bool)
        ensures
            found == self@.contains(text@),
    {
        let wanted = String::from_str(text);
        let mut i: usize = 0;
        while i < self.items.len()
            invariant
                i <= self.items.len(),
                wanted@ == text@,
                forall|j: int| 0 <= j < i ==> self.texts()[j] != text@,
            decreases self.items.len() - i,
        {
            if self.items[i] == wanted {
                assert(self.texts()[i as int] == text@);
                return true;
            }
            i += 1;
        }
        false
    }

    /// Adds `text` to the set and tells whether it was new.
    pub fn insert(&mut self, text: String) -> (added: bool)
        requires
            old(self).wf(),
        ensures
            final(self).wf(),
            final(self)@ == old(self)@.insert(text@),
            added == !old(self)@.contains(text@),
    {
        if self.contains(text.as_str()) {
            assert(self@.insert(text@) =~= self@);
            false
        } else {
            proof {
                self.texts().lemma_push_to_set_commute(text@);
            }
            self.items.push(text);
            assert(self.texts() =~= old(self).texts().push(text@));
            true
        }
    }

    /// The members, in the order in which they were first inserted.
    pub fn to_vec(&self) -> (out: Vec<String>)
        requires
            self.wf(),
        ensures
            texts_of(out@) == self.texts(),
            texts_of(out@).no_duplicates(),
            texts_of(out@).to_set() == self@,
    {
        let mut out: Vec<String> = Vec::new();
        let mut i: usize = 0;
        while i < self.items.len()
            invariant
                i <= self.items.len(),
                texts_of(out@) == self.texts().take(i as int),
            decreases self.items.len() - i,
        {
            let ghost before = out@;
            assert(texts_of(before).len() == i);
            out.push(self.items[i].clone());
            assert forall|j: int| 0 <= j < i + 1 implies texts_of(out@)[j] == self.texts()[j] by {
                if j < i {
                    assert(texts_of(before)[j] == self.texts().take(i as int)[j]);
                }
            }
            assert(texts_of(out@) =~= self.texts().take(i + 1));
            i += 1;
        }
        assert(self.texts().take(self.items.len() as int) =~= self.texts());
        out
    }
}

} // verus!
