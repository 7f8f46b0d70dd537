//! Account identifiers: the names by which listers, collections and currencies
//! are known to the host.

use vstd::prelude::*;
use crate::text::free_of_delimiter;

verus! {

/// A lower-case letter or a digit.
pub open spec fn is_plain(c: char) -> bool {
    ('a' <= c && c <= 'z') || ('0' <= c && c <= '9')
}

/// One of the three characters that separate the parts of an account identifier.
pub open spec fn is_separator(c: char) -> bool {
    c == '-' || c == '_' || c == '.'
}

/// `text` is an account identifier: between 2 and 64 characters, each a
/// lower-case letter, a digit or a separator, with no separator at either end
/// and no two separators in a row.
pub open spec fn is_account_id(text: Seq<char>) -> bool {
    &&& 2 <= text.len() <= 64
    &&& forall|i: int| 0 <= i < text.len() ==> is_plain(#[trigger] text[i]) || is_separator(text[i])
    &&& !is_separator(text[0])
    &&& !is_separator(text[text.len() - 1])
    &&& forall|i: int|
        0 <= i < text.len() - 1 ==> !(is_separator(#[trigger] text[i]) && is_separator(text[i + 1]))
}

/// An account identifier never holds the character of the listing key's separator.
pub proof fn lemma_account_id_free_of_delimiter(text: Seq<char>)
    requires
        is_account_id(text),
    ensures
        free_of_delimiter(text),
{
    assert forall|i: int| 0 <= i < text.len() implies text[i] != '|' by {
        assert(is_plain(text[i]) || is_separator(text[i]));
    }
}

/// Tells whether `text` is an account identifier. This is `is_valid_account_id`
/// of `near_sdk::env`, which is believed here, not proved: it takes the
/// text's bytes and answers `true` exactly when there are between 2 and 64 of
/// them, each is one of `a`-`z`, `0`-`9`, `-`, `_` and `.`, the first and the last
/// are none of `-`, `_` and `.`, and no two of those three stand side by side.
/// Such a text has one byte for each character.
#[verifier::external_body]
fn valid_account_id(text: &str) -> (valid: bool)
    ensures
        valid == is_account_id(text@),
{
    near_sdk::env::is_valid_account_id(text.as_bytes())
}

/// An account identifier that was found valid.
#[derive(Debug, PartialEq, Eq)]
pub struct AccountId {
    name: String,
}

impl View for AccountId {
    type V = Seq<char>;

    closed spec fn view(&self) -> Seq<char> {
        self.name@
    }
}

impl Clone for AccountId {
    fn clone(&self) -> (copy: Self)
        ensures
            copy@ == self@,
    {
        proof {
            use_type_invariant(self);
        }
        AccountId { name: self.name.clone() }
    }
}

impl AccountId {
    #[verifier::type_invariant]
    spec fn valid(&self) -> bool {
        is_account_id(self.name@)
    }

    /// Takes `name` for an account identifier if it is one.
    pub fn new(name: &str) -> (id: Option<AccountId>)
        ensures
            id is Some == is_account_id(name@),
            id matches Some(a) ==> a@ == name@,
    {
        if valid_account_id(name) {
            Some(AccountId { name: String::from_str(name) })
        } else {
            None
        }
    }

    /// The identifier as text.
    pub fn as_str(&self) -> (text: &str)
        ensures
            text@ == self@,
            is_account_id(self@),
    {
        proof {
            use_type_invariant(self);
        }
        self.name.as_str()
    }
}

} // verus!
