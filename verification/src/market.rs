//! The market: the listing store, its three indices, the quota ledger and the
//! currency registry, and the approvals that fill them.

use vstd::prelude::*;
use crate::account::AccountId;
use crate::error::ApprovalError;
use crate::index::{Index, IndexMaintainer, IndexName};
use crate::laws::{
    lemma_approval_keeps_names, lemma_index_symmetry, lemma_purchase_keeps_quota,
    lemma_quota_invariant,
};
use crate::ledger::{
    buys_unit, units_after_purchase, CurrencyRegistry, QuotaLedger,
};
use crate::listing::{price_table, ApprovalMessage, Listing};
use crate::model::{all_supported, Approval, MarketView, RefundView};
use crate::store::ListingStore;
use crate::text::{contains_text, listing_key};

verus! {

/// What the host tells of the call that carries an approval.
#[derive(Debug, Clone, PartialEq, Eq)]
pub struct CallContext {
    /// The account that made the call: the collection that approves.
    pub predecessor_account_id: AccountId,
    /// The time of the block in which the call runs.
    pub block_timestamp: u64,
    /// The payment that came with the call.
    pub attached_deposit: u128,
}

/// A payment to be sent back to an account, after the approval and apart from it.
#[derive(Debug, Clone, PartialEq, Eq)]
pub struct Refund {
    pub account_id: AccountId,
    pub amount: u128,
}

impl View for Refund {
    type V = RefundView;

    open spec fn view(&self) -> RefundView {
        RefundView { account_id: self.account_id@, amount: self.amount }
    }
}

/// An approval event, of a single item or of a whole category.
#[derive(Debug, Clone, PartialEq, Eq)]
pub struct ApprovalRequest {
    /// The collection that sent the approval.
    pub source_collection_id: AccountId,
    /// The time of the approval.
    pub created_at: u64,
    /// The account that was granted the right to list.
    pub lister_id: AccountId,
    /// The credential of the grant.
    pub approval_token: u64,
    /// The item, or the category's name.
    pub item_id: String,
    /// Whether a whole category is approved.
    pub is_category: bool,
    /// The parsed message; `None` where it did not parse.
    pub message: Option<ApprovalMessage>,
}

/// The value of an optional message.
pub open spec fn optional_message(message: Option<ApprovalMessage>) -> Option<
    crate::listing::ApprovalMessageView,
> {
    match message {
        Some(m) => Some(m@),
        None => None,
    }
}

impl View for ApprovalRequest {
    type V = Approval;

    open spec fn view(&self) -> Approval {
        Approval {
            source_collection_id: self.source_collection_id@,
            created_at: self.created_at,
            lister_id: self.lister_id@,
            approval_token: self.approval_token,
            item_id: self.item_id@,
            is_category: self.is_category,
            message: optional_message(self.message),
        }
    }
}

/// The state of the market.
#[derive(Debug, Clone)]
pub struct Market {
    listings: ListingStore,
    indices: IndexMaintainer,
    ledger: QuotaLedger,
    currencies: CurrencyRegistry,
}

impl View for Market {
    type V = MarketView;

    closed spec fn view(&self) -> MarketView {
        MarketView {
            listings: self.listings@,
            by_lister: self.indices@.by_lister,
            by_collection: self.indices@.by_collection,
            by_category: self.indices@.by_category,
            unit_cost: self.ledger@.unit_cost,
            quota: self.ledger@.units,
            currencies: self.currencies@,
        }
    }
}

impl Market {
    /// Each part of the state is well formed.
    pub closed spec fn parts_wf(&self) -> bool {
        &&& self.listings.wf()
        &&& self.indices.wf()
        &&& self.ledger.wf()
        &&& self.currencies.wf()
    }

    /// The invariant of the market: its parts are well formed, every listing is
    /// filed in the indices, no lister has more listing keys filed than it holds
    /// units, and listers and collections are named by account identifiers.
    pub closed spec fn wf(&self) -> bool {
        &&& self.parts_wf()
        &&& self@.indexed()
        &&& self@.within_quota()
        &&& self@.well_named()
    }

    /// What the invariant says of the model.
    pub proof fn lemma_wf(&self)
        requires
            self.wf(),
        ensures
            self@.finite(),
            self@.indexed(),
            self@.within_quota(),
            self@.well_named(),
    {
        self.lemma_parts();
    }

    /// The index sets of a market with well-formed parts are finite.
    proof fn lemma_parts(&self)
        requires
            self.parts_wf(),
        ensures
            self@.finite(),
    {
        self.indices.lemma_finite();
    }

    /// A market without listings, in which no account holds a unit and no
    /// currency is accepted; a unit costs `unit_cost`.
    pub fn new(unit_cost: u128) -> (market: Self)
        ensures
            market.wf(),
            market@.listings == Map::<Seq<char>, crate::listing::ListingView>::empty(),
            market@.by_lister == Map::<Seq<char>, Set<Seq<char>>>::empty(),
            market@.by_collection == Map::<Seq<char>, Set<Seq<char>>>::empty(),
            market@.by_category == Map::<Seq<char>, Set<Seq<char>>>::empty(),
            market@.unit_cost == unit_cost,
            market@.quota == Map::<Seq<char>, u128>::empty(),
            market@.currencies == Set::<Seq<char>>::empty(),
    {
        Market {
            listings: ListingStore::new(),
            indices: IndexMaintainer::new(),
            ledger: QuotaLedger::new(unit_cost),
            currencies: CurrencyRegistry::new(),
        }
    }

    /// The listing store.
    pub fn listings(&self) -> (store: &ListingStore)
        requires
            self.wf(),
        ensures
            store.wf(),
            store@ == self@.listings,
    {
        &self.listings
    }

    /// The index by lister.
    pub fn by_lister(&self) -> (index: &Index)
        requires
            self.wf(),
        ensures
            index.wf(),
            index@ == self@.by_lister,
    {
        self.indices.index(IndexName::ByLister)
    }

    /// The index by source collection.
    pub fn by_collection(&self) -> (index: &Index)
        requires
            self.wf(),
        ensures
            index.wf(),
            index@ == self@.by_collection,
    {
        self.indices.index(IndexName::BySourceCollection)
    }

    /// The index by category.
    pub fn by_category(&self) -> (index: &Index)
        requires
            self.wf(),
        ensures
            index.wf(),
            index@ == self@.by_category,
    {
        self.indices.index(IndexName::ByCategory)
    }

    /// The quota ledger.
    pub fn ledger(&self) -> (ledger: &QuotaLedger)
        requires
            self.wf(),
        ensures
            ledger.wf(),
            ledger@.unit_cost == self@.unit_cost,
            ledger@.units == self@.quota,
    {
        &self.ledger
    }

    /// The currency registry.
    pub fn currencies(&self) -> (registry: &CurrencyRegistry)
        requires
            self.wf(),
        ensures
            registry.wf(),
            registry@ == self@.currencies,
    {
        &self.currencies
    }

    /// Accepts `currency` from now on, and tells whether it was new.
    pub fn register_currency(&mut self, currency: &AccountId) -> (added: bool)
        requires
            old(self).wf(),
        ensures
            final(self).wf(),
            final(self)@ == (MarketView {
                currencies: old(self)@.currencies.insert(currency@),
                ..old(self)@
            }),
            added == !old(self)@.currencies.contains(currency@),
    {
        let added = self.currencies.register(currency.as_str());
        proof {
            let pre = old(self)@;
            let post = self@;
            assert forall|lister: Seq<char>| #[trigger]
                post.listings_of(lister) <= post.units(lister) by {
                assert(pre.listings_of(lister) <= pre.units(lister));
            }
        }
        added
    }

    /// Offers `payment` for one listing unit on behalf of `account`, and tells
    /// whether the unit was bought.
    pub fn purchase_quota(&mut self, account: &AccountId, payment: u128) -> (bought: bool)
        requires
            old(self).wf(),
        ensures
            final(self).wf(),
            final(self)@ == old(self)@.with_quota(
                units_after_purchase(old(self)@.quota, old(self)@.unit_cost, account@, payment),
            ),
            bought == buys_unit(old(self)@.unit_cost, old(self)@.units(account@), payment),
    {
        let bought = self.ledger.purchase_quota(account.as_str(), payment);
        proof {
            lemma_purchase_keeps_quota(old(self)@, account@, payment);
        }
        bought
    }

    /// Judges `request` for a lister that holds `held` units.
    fn judge(&self, held: u128, request: &ApprovalRequest) -> (verdict: Option<ApprovalError>)
        requires
            self.parts_wf(),
        ensures
            verdict == self@.rejection_given(held, request@),
    {
        if held < 1 {
            return Some(ApprovalError::InsufficientQuota);
        }
        let message = match &request.message {
            Some(m) => m,
            None => {
                return Some(ApprovalError::MalformedRequest);
            },
        };
        let ghost entries = request@.message->0.sale_conditions;
        let mut i: usize = 0;
        while i < message.sale_conditions.len()
            invariant
                i <= message.sale_conditions.len(),
                held >= 1,
                request@.message is Some,
                entries == request@.message->0.sale_conditions,
                entries == crate::listing::conditions_view(message.sale_conditions@),
                forall|j: int|
                    0 <= j < i ==> self@.currencies.contains((#[trigger] entries[j]).currency_id),
            decreases message.sale_conditions.len() - i,
        {
            let currency = message.sale_conditions[i].currency_id.as_str();
            if !self.currencies.is_supported_currency(currency) {
                assert(!self@.currencies.contains(entries[i as int].currency_id));
                return Some(ApprovalError::UnsupportedCurrency);
            }
            i += 1;
        }
        assert(all_supported(entries, self@.currencies));
        let used = self.indices.count(IndexName::ByLister, request.lister_id.as_str());
        if held <= used as u128 {
            return Some(ApprovalError::InsufficientQuota);
        }
        if !request.is_category {
            match &message.category_tag {
                Some(tag) => {
                    if !contains_text(request.item_id.as_str(), tag.as_str()) {
                        return Some(ApprovalError::InvalidCategoryTag);
                    }
                },
                None => {},
            }
        }
        None
    }

    /// Stores the listing of `request` and files its key in the indices; the
    /// collection and the lister of a request are named by account identifiers.
    fn record(&mut self, request: ApprovalRequest)
        requires
            old(self).parts_wf(),
            request.message is Some,
        ensures
            final(self).parts_wf(),
            final(self)@ == old(self)@.record(request@.listing()),
            request@.well_named(),
    {
        let key = listing_key(request.source_collection_id.as_str(), request.item_id.as_str());
        let ApprovalRequest {
            source_collection_id,
            created_at,
            lister_id,
            approval_token,
            item_id,
            is_category,
            message,
        } = request;
        let message = message.unwrap();
        let price_conditions = price_table(&message.sale_conditions);
        let category_tag = if is_category {
            None
        } else {
            message.category_tag
        };
        self.indices.add(IndexName::ByLister, lister_id.as_str(), key.as_str());
        self.indices.add(
            IndexName::BySourceCollection,
            source_collection_id.as_str(),
            key.as_str(),
        );
        if is_category {
            self.indices.add(IndexName::ByCategory, item_id.as_str(), key.as_str());
        } else {
            match &category_tag {
                Some(tag) => {
                    self.indices.add(IndexName::ByCategory, tag.as_str(), key.as_str());
                },
                None => {},
            }
        }
        let listing = Listing {
            lister_id: String::from_str(lister_id.as_str()),
            created_at,
            approval_token,
            source_collection_id: String::from_str(source_collection_id.as_str()),
            item_id,
            price_conditions,
            is_category_listing: is_category,
            category_tag,
            bids: None,
        };
        assert(listing@ == request@.listing());
        self.listings.put(key, listing);
    }

    /// Takes in an approval: judges it and, where nothing speaks against it, stores
    /// its listing and files the listing's key under its lister, its collection
    /// and its category. A refused approval changes nothing.
    pub fn approve(&mut self, request: ApprovalRequest) -> (outcome: Result<(), ApprovalError>)
        requires
            old(self).wf(),
        ensures
            final(self).wf(),
            match outcome {
                Ok(()) => old(self)@.approve(request@) == Ok::<MarketView, ApprovalError>(
                    final(self)@,
                ),
                Err(reason) => old(self)@.approve(request@) == Err::<MarketView, ApprovalError>(
                    reason,
                ) && *final(self) == *old(self),
            },
    {
        let held = self.ledger.current_quota_units(request.lister_id.as_str());
        match self.judge(held, &request) {
            Some(reason) => Err(reason),
            None => {
                let ghost approval = request@;
                proof {
                    self.lemma_parts();
                    lemma_index_symmetry(self@, approval);
                    lemma_quota_invariant(self@, approval);
                }
                self.record(request);
                proof {
                    lemma_approval_keeps_names(old(self)@, approval);
                }
                Ok(())
            },
        }
    }

    /// The approval of a single item: `owner_id` may list the item `token_id` of
    /// the collection that made the call, under the price conditions and the
    /// category tag of `msg`; `msg` is `None` where the message did not parse.
    pub fn nft_on_approve(
        &mut self,
        context: &CallContext,
        token_id: &str,
        owner_id: &AccountId,
        approval_id: u64,
        msg: Option<ApprovalMessage>,
    ) -> (outcome: Result<(), ApprovalError>)
        requires
            old(self).wf(),
        ensures
            final(self).wf(),
            match outcome {
                Ok(()) => old(self)@.approve_item(
                    context.predecessor_account_id@,
                    context.block_timestamp,
                    token_id@,
                    owner_id@,
                    approval_id,
                    optional_message(msg),
                ) == Ok::<MarketView, ApprovalError>(final(self)@),
                Err(reason) => old(self)@.approve_item(
                    context.predecessor_account_id@,
                    context.block_timestamp,
                    token_id@,
                    owner_id@,
                    approval_id,
                    optional_message(msg),
                ) == Err::<MarketView, ApprovalError>(reason) && *final(self) == *old(self),
            },
    {
        let request = ApprovalRequest {
            source_collection_id: context.predecessor_account_id.clone(),
            created_at: context.block_timestamp,
            lister_id: owner_id.clone(),
            approval_token: approval_id,
            item_id: String::from_str(token_id),
            is_category: false,
            message: msg,
        };
        self.approve(request)
    }

    /// The approval of a category: `owner_id` may list the category `series_name`
    /// of the collection that made the call under the price conditions of `msg`.
    /// The payment that came with the call is first offered for one listing unit
    /// of the lister; what exceeds the unit's cost is owed back to the lister and
    /// returned as a refund to be sent.
    pub fn series_on_approve(
        &mut self,
        context: &CallContext,
        series_name: &str,
        owner_id: &AccountId,
        msg: ApprovalMessage,
    ) -> (outcome: Result<Refund, ApprovalError>)
        requires
            old(self).wf(),
        ensures
            final(self).wf(),
            match outcome {
                Ok(refund) => old(self)@.approve_category(
                    context.predecessor_account_id@,
                    context.block_timestamp,
                    series_name@,
                    owner_id@,
                    msg@,
                    context.attached_deposit,
                ) == Ok::<(MarketView, RefundView), ApprovalError>((final(self)@, refund@)),
                Err(reason) => old(self)@.approve_category(
                    context.predecessor_account_id@,
                    context.block_timestamp,
                    series_name@,
                    owner_id@,
                    msg@,
                    context.attached_deposit,
                ) == Err::<(MarketView, RefundView), ApprovalError>(reason) && *final(self) == *old(
                    self,
                ),
            },
    {
        let payment = context.attached_deposit;
        let cost = self.ledger.unit_cost();
        let held = self.ledger.current_quota_units(owner_id.as_str());
        let held_after: u128 = if payment >= cost && held < u128::MAX {
            held + 1
        } else {
            held
        };
        let request = ApprovalRequest {
            source_collection_id: context.predecessor_account_id.clone(),
            created_at: context.block_timestamp,
            lister_id: owner_id.clone(),
            approval_token: 0,
            item_id: String::from_str(series_name),
            is_category: true,
            message: Some(msg),
        };
        let ghost paid = old(self)@.with_quota(
            units_after_purchase(old(self)@.quota, old(self)@.unit_cost, owner_id@, payment),
        );
        match self.judge(held_after, &request) {
            Some(reason) => {
                assert(paid.rejection(request@) == Some(reason));
                Err(reason)
            },
            None => {
                self.ledger.purchase_quota(owner_id.as_str(), payment);
                proof {
                    assert(self@ == paid);
                    assert(paid.rejection(request@) is None);
                    lemma_purchase_keeps_quota(old(self)@, owner_id@, payment);
                    self.lemma_parts();
                    lemma_index_symmetry(paid, request@);
                    lemma_quota_invariant(paid, request@);
                }
                let ghost approval = request@;
                self.record(request);
                proof {
                    lemma_approval_keeps_names(paid, approval);
                }
                let amount = if payment >= cost {
                    payment - cost
                } else {
                    0
                };
                Ok(Refund { account_id: owner_id.clone(), amount })
            },
        }
    }
}

} // verus!
