//! The mathematical model of the market: its state as maps and sets, and what
//! an approval makes of a state.

use vstd::prelude::*;
use crate::account::is_account_id;
use crate::error::ApprovalError;
use crate::index::{index_add, index_finite, members_of};
use crate::ledger::{excess_payment, units_after_purchase, units_of};
use crate::listing::{conditions_of, ApprovalMessageView, ListingView, PriceConditionView};
use crate::text::is_substring;

verus! {

/// The state of the market as mathematical maps and sets.
pub struct MarketView {
    /// The listing store: listing key to listing.
    pub listings: Map<Seq<char>, ListingView>,
    /// The listing keys filed under each lister.
    pub by_lister: Map<Seq<char>, Set<Seq<char>>>,
    /// The listing keys filed under each source collection.
    pub by_collection: Map<Seq<char>, Set<Seq<char>>>,
    /// The listing keys filed under each category.
    pub by_category: Map<Seq<char>, Set<Seq<char>>>,
    /// The payment that one listing unit requires.
    pub unit_cost: u128,
    /// The listing units that each account holds.
    pub quota: Map<Seq<char>, u128>,
    /// The currencies that the market accepts.
    pub currencies: Set<Seq<char>>,
}

/// An approval event as the market sees it.
pub struct Approval {
    /// The collection that sent the approval.
    pub source_collection_id: Seq<char>,
    /// The time of the approval.
    pub created_at: u64,
    /// The account that was granted the right to list.
    pub lister_id: Seq<char>,
    /// The credential of the grant (zero for a category).
    pub approval_token: u64,
    /// The item, or the category's name.
    pub item_id: Seq<char>,
    /// Whether a whole category is approved.
    pub is_category: bool,
    /// The parsed message; `None` where it did not parse.
    pub message: Option<ApprovalMessageView>,
}

/// The payment that the lister gets back after a category approval.
pub struct RefundView {
    pub account_id: Seq<char>,
    pub amount: u128,
}

impl Approval {
    /// The collection and the lister are named by account identifiers.
    pub open spec fn well_named(self) -> bool {
        &&& is_account_id(self.source_collection_id)
        &&& is_account_id(self.lister_id)
    }

    /// The key of the listing that the approval writes.
    pub open spec fn key(self) -> Seq<char> {
        crate::text::listing_key_of(self.source_collection_id, self.item_id)
    }

    /// The category tag that the listing carries: that of the message for a single
    /// item, none for a category.
    pub open spec fn category_tag(self) -> Option<Seq<char>> {
        if self.is_category || self.message is None {
            None
        } else {
            self.message->0.category_tag
        }
    }

    /// The listing that the approval writes, for a message that parsed.
    pub open spec fn listing(self) -> ListingView {
        ListingView {
            lister_id: self.lister_id,
            created_at: self.created_at,
            approval_token: self.approval_token,
            source_collection_id: self.source_collection_id,
            item_id: self.item_id,
            price_conditions: conditions_of(self.message->0.sale_conditions),
            is_category_listing: self.is_category,
            category_tag: self.category_tag(),
            bids: None,
        }
    }
}

/// Every entry names a currency of `currencies`.
pub open spec fn all_supported(
    entries: Seq<PriceConditionView>,
    currencies: Set<Seq<char>>,
) -> bool {
    forall|i: int| 0 <= i < entries.len() ==> currencies.contains((#[trigger] entries[i]).currency_id)
}

impl MarketView {
    /// The number of listing keys filed under `lister`.
    pub open spec fn listings_of(self, lister: Seq<char>) -> nat {
        members_of(self.by_lister, lister).len()
    }

    /// The listing units that `account` holds.
    pub open spec fn units(self, account: Seq<char>) -> u128 {
        units_of(self.quota, account)
    }

    /// Every set of the three indices is finite.
    pub open spec fn finite(self) -> bool {
        &&& index_finite(self.by_lister)
        &&& index_finite(self.by_collection)
        &&& index_finite(self.by_category)
    }

    /// No lister has more listing keys filed than it holds units.
    pub open spec fn within_quota(self) -> bool {
        forall|lister: Seq<char>| #[trigger] self.listings_of(lister) <= self.units(lister)
    }

    /// Each listing is stored under its own key, and its key is filed under its
    /// lister, under its collection and, where it has one, under its category.
    pub open spec fn indexed(self) -> bool {
        forall|key: Seq<char>| #[trigger]
            self.listings.contains_key(key) ==> {
                let listing = self.listings[key];
                &&& listing.key() == key
                &&& members_of(self.by_lister, listing.lister_id).contains(key)
                &&& members_of(self.by_collection, listing.source_collection_id).contains(key)
                &&& listing.category() matches Some(c) ==> members_of(self.by_category, c).contains(
                    key,
                )
            }
    }

    /// The collection and the lister of each listing are named by account
    /// identifiers.
    pub open spec fn well_named(self) -> bool {
        forall|key: Seq<char>| #[trigger]
            self.listings.contains_key(key) ==> is_account_id(
                self.listings[key].source_collection_id,
            ) && is_account_id(self.listings[key].lister_id)
    }

    /// Each key that an index files belongs to a stored listing, and to one with
    /// that lister, that collection or that category.
    pub open spec fn exact(self) -> bool {
        &&& forall|lister: Seq<char>, key: Seq<char>| #[trigger]
            members_of(self.by_lister, lister).contains(key) ==> self.listings.contains_key(key)
                && self.listings[key].lister_id == lister
        &&& forall|collection: Seq<char>, key: Seq<char>| #[trigger]
            members_of(self.by_collection, collection).contains(key)
                ==> self.listings.contains_key(key) && self.listings[key].source_collection_id
                == collection
        &&& forall|category: Seq<char>, key: Seq<char>| #[trigger]
            members_of(self.by_category, category).contains(key) ==> self.listings.contains_key(
                key,
            ) && self.listings[key].category() == Some(category)
    }

    /// The state in which the lister holds `quota` instead of its present units.
    pub open spec fn with_quota(self, quota: Map<Seq<char>, u128>) -> MarketView {
        MarketView { quota, ..self }
    }

    /// The state after `listing` was stored and filed in the indices.
    pub open spec fn record(self, listing: ListingView) -> MarketView {
        MarketView {
            listings: self.listings.insert(listing.key(), listing),
            by_lister: index_add(self.by_lister, listing.lister_id, listing.key()),
            by_collection: index_add(
                self.by_collection,
                listing.source_collection_id,
                listing.key(),
            ),
            by_category: match listing.category() {
                Some(c) => index_add(self.by_category, c, listing.key()),
                None => self.by_category,
            },
            ..self
        }
    }

    /// Why `approval` is refused in this state, if it is, for a lister that holds
    /// `held` units. The tests are made in this order, and the first that fails
    /// gives the reason: the lister holds a unit; the message parsed; each currency
    /// is accepted; the lister holds more units than it has listing keys filed; the
    /// category tag is a part of the item's identifier.
    pub open spec fn rejection_given(self, held: u128, approval: Approval) -> Option<
        ApprovalError,
    > {
        if held < 1 {
            Some(ApprovalError::InsufficientQuota)
        } else if approval.message is None {
            Some(ApprovalError::MalformedRequest)
        } else if !all_supported(approval.message->0.sale_conditions, self.currencies) {
            Some(ApprovalError::UnsupportedCurrency)
        } else if held <= self.listings_of(approval.lister_id) {
            Some(ApprovalError::InsufficientQuota)
        } else if approval.category_tag() matches Some(tag) && !is_substring(
            tag,
            approval.item_id,
        ) {
            Some(ApprovalError::InvalidCategoryTag)
        } else {
            None
        }
    }

    /// Why `approval` is refused in this state, if it is: `rejection_given` with
    /// the units that the lister holds.
    pub open spec fn rejection(self, approval: Approval) -> Option<ApprovalError> {
        self.rejection_given(self.units(approval.lister_id), approval)
    }

    /// What an approval makes of this state: the reason for which it is refused,
    /// or the state with the listing stored and filed.
    pub open spec fn approve(self, approval: Approval) -> Result<MarketView, ApprovalError> {
        match self.rejection(approval) {
            Some(reason) => Err(reason),
            None => Ok(self.record(approval.listing())),
        }
    }

    /// What the approval of a single item makes of this state.
    pub open spec fn approve_item(
        self,
        source_collection_id: Seq<char>,
        created_at: u64,
        item_id: Seq<char>,
        lister_id: Seq<char>,
        approval_token: u64,
        message: Option<ApprovalMessageView>,
    ) -> Result<MarketView, ApprovalError> {
        self.approve(
            Approval {
                source_collection_id,
                created_at,
                lister_id,
                approval_token,
                item_id,
                is_category: false,
                message,
            },
        )
    }

    /// What the approval of a category makes of this state, given the payment that
    /// came with it: the lister first offers the payment for one unit and is owed
    /// what exceeds the unit's cost; then the approval is judged as any other.
    pub open spec fn approve_category(
        self,
        source_collection_id: Seq<char>,
        created_at: u64,
        category_name: Seq<char>,
        lister_id: Seq<char>,
        message: ApprovalMessageView,
        payment: u128,
    ) -> Result<(MarketView, RefundView), ApprovalError> {
        let paid = self.with_quota(
            units_after_purchase(self.quota, self.unit_cost, lister_id, payment),
        );
        let approval = Approval {
            source_collection_id,
            created_at,
            lister_id,
            approval_token: 0,
            item_id: category_name,
            is_category: true,
            message: Some(message),
        };
        match paid.approve(approval) {
            Ok(after) => Ok(
                (
                    after,
                    RefundView {
                        account_id: lister_id,
                        amount: excess_payment(self.unit_cost, payment),
                    },
                ),
            ),
            Err(reason) => Err(reason),
        }
    }
}

} // verus!
