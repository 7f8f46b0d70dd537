//! The reasons for which an approval is refused.

use vstd::prelude::*;

verus! {

/// Why an approval was refused. A refused approval changes nothing.
#[derive(Debug, Clone, Copy, PartialEq, Eq, Structural)]
pub enum ApprovalError {
    /// The message of the approval did not parse.
    MalformedRequest,
    /// A price condition names a currency that the market does not accept.
    UnsupportedCurrency,
    /// The category tag is not a part of the item's identifier.
    InvalidCategoryTag,
    /// The lister holds no unit for one more listing.
    InsufficientQuota,
}

impl ApprovalError {
    /// The reason in words.
    pub fn message(&self) -> (text: String)
        ensures
            text@ == match *self {
                ApprovalError::MalformedRequest => "the approval message does not parse"@,
                ApprovalError::UnsupportedCurrency => "a price condition names a currency that this market does not accept"@,
                ApprovalError::InvalidCategoryTag => "the category tag is not a part of the item identifier"@,
                ApprovalError::InsufficientQuota => "the lister holds no unit for one more listing"@,
            },
    {
        match self {
            ApprovalError::MalformedRequest => String::from_str("the approval message does not parse"),
            ApprovalError::UnsupportedCurrency => String::from_str(
                "a price condition names a currency that this market does not accept",
            ),
            ApprovalError::InvalidCategoryTag => String::from_str(
                "the category tag is not a part of the item identifier",
            ),
            ApprovalError::InsufficientQuota => String::from_str(
                "the lister holds no unit for one more listing",
            ),
        }
    }
}

} // verus!
