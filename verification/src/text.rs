//! Text helpers shared by the listing engine: the listing key and the
//! substring test applied to category tags.

use vstd::prelude::*;

verus! {

/// The separator that stands between the collection and the item in a listing key.
pub const DELIMITER: &'static str = "||";

/// The separator as a sequence of characters.
pub open spec fn delimiter() -> Seq<char> {
    seq!['|', '|']
}

/// The key under which the listing of `item` in `collection` is stored.
pub open spec fn listing_key_of(collection: Seq<char>, item: Seq<char>) -> Seq<char> {
    collection + delimiter() + item
}

/// The character sequences of `items`, in order.
pub open spec fn texts_of(items: Seq<String>) -> Seq<Seq<char>> {
    Seq::new(items.len(), |i: int| items[i]@)
}

/// `needle` stands in `hay` at position `at`.
pub open spec fn occurs_at(needle: Seq<char>, hay: Seq<char>, at: int) -> bool {
    &&& 0 <= at
    &&& at + needle.len() <= hay.len()
    &&& hay.subrange(at, at + needle.len()) == needle
}

/// `needle` is a contiguous part of `hay`; the empty text is a part of every text.
pub open spec fn is_substring(needle: Seq<char>, hay: Seq<char>) -> bool {
    exists|at: int| occurs_at(needle, hay, at)
}

/// The separator's character does not occur in `text`.
pub open spec fn free_of_delimiter(text: Seq<char>) -> bool {
    forall|i: int| 0 <= i < text.len() ==> text[i] != '|'
}

/// A listing key tells its collection and its item, as long as the collections
/// do not hold the separator's character.
pub proof fn lemma_listing_key_unique(
    collection: Seq<char>,
    item: Seq<char>,
    other_collection: Seq<char>,
    other_item: Seq<char>,
)
    requires
        free_of_delimiter(collection),
        free_of_delimiter(other_collection),
        listing_key_of(collection, item) == listing_key_of(other_collection, other_item),
    ensures
        collection == other_collection,
        item == other_item,
{
    let key = listing_key_of(collection, item);
    let other = listing_key_of(other_collection, other_item);
    let n = collection.len() as int;
    let m = other_collection.len() as int;
    assert(key[n] == '|');
    assert(other[m] == '|');
    if n < m {
        assert(other[n] == other_collection[n]);
    }
    if m < n {
        assert(key[m] == collection[m]);
    }
    assert(n == m);
    assert forall|i: int| 0 <= i < n implies collection[i] == other_collection[i] by {
        assert(key[i] == collection[i]);
        assert(other[i] == other_collection[i]);
    }
    assert(collection =~= other_collection);
    assert(key.len() == other.len());
    assert forall|i: int| 0 <= i < item.len() implies item[i] == other_item[i] by {
        assert(key[n + 2 + i] == item[i]);
        assert(other[n + 2 + i] == other_item[i]);
    }
    assert(item =~= other_item);
}

/// Builds the listing key of `item` in `collection`.
pub fn listing_key(collection: &str, item: &str) -> (key: String)
    ensures
        key@ == listing_key_of(collection@, item@),
{
    proof {
        reveal_strlit("||");
        assert("||"@ =~= delimiter());
    }
    let mut key = String::from_str(collection);
    key.append(DELIMITER);
    key.append(item);
    key
}

/// The characters of `s`, in order.
pub fn chars_of(s: &str) -> (out: Vec<char>)
    ensures
        out@ == s@,
{
    broadcast use vstd::string::group_string_axioms;

    let mut out: Vec<char> = Vec::new();
    for c in it: s.chars()
        invariant
            it.seq() == s@,
            out@ == it.seq().take(it.index()),
    {
        out.push(c);
    }
    out
}

/// Compares `needle` with the part of `hay` that starts at `at`.
fn matches_at(hay: &Vec<char>, needle: &Vec<char>, at: usize) -> (same: bool)
    requires
        at + needle.len() <= hay.len(),
    ensures
        same == occurs_at(needle@, hay@, at as int),
{
    let mut i: usize = 0;
    while i < needle.len()
        invariant
            i <= needle.len(),
            at + needle.len() <= hay.len(),
            forall|j: int| 0 <= j < i ==> hay@[at + j] == needle@[j],
        decreases needle.len() - i,
    {
        if hay[at + i] != needle[i] {
            proof {
                let part = hay@.subrange(at as int, at + needle.len());
                assert(part[i as int] == hay@[at + i]);
            }
            return false;
        }
        i += 1;
    }
    assert(hay@.subrange(at as int, at + needle.len()) =~= needle@);
    true
}

/// Tells whether `needle` is a contiguous part of `hay`.
pub fn contains_text(hay: &str, needle: &str) -> (found: bool)
    ensures
        found == is_substring(needle@, hay@),
{
    let h = chars_of(hay);
    let n = chars_of(needle);
    if n.len() > h.len() {
        return false;
    }
    let last: usize = h.len() - n.len();
    let mut at: usize = 0;
    loop
        invariant
            at <= last,
            last == h.len() - n.len(),
            h@ == hay@,
            n@ == needle@,
            forall|k: int| 0 <= k < at ==> !occurs_at(n@, h@, k),
        decreases last - at,
    {
        if matches_at(&h, &n, at) {
            return true;
        }
        if at == last {
            return false;
        }
        at += 1;
    }
}

} // verus!
