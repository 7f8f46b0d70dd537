//! The listing record, the message that an approval carries, and the price
//! conditions that are built from it.

use vstd::prelude::*;
use crate::account::AccountId;
use crate::text::listing_key_of;
use crate::text_map::TextMap;

verus! {

/// One price condition of an approval message: a currency and, where the lister
/// names one, the asking price in it.
#[derive(Debug, Clone, PartialEq, Eq)]
pub struct PriceCondition {
    pub currency_id: AccountId,
    pub price: Option<u128>,
}

/// The mathematical value of a `PriceCondition`.
pub struct PriceConditionView {
    pub currency_id: Seq<char>,
    pub price: Option<u128>,
}

impl View for PriceCondition {
    type V = PriceConditionView;

    open spec fn view(&self) -> PriceConditionView {
        PriceConditionView { currency_id: self.currency_id@, price: self.price }
    }
}

/// The message of an approval event, once it has been parsed.
#[derive(Debug, Clone, PartialEq, Eq)]
pub struct ApprovalMessage {
    pub sale_conditions: Vec<PriceCondition>,
    pub category_tag: Option<String>,
}

/// The mathematical value of an `ApprovalMessage`.
pub struct ApprovalMessageView {
    pub sale_conditions: Seq<PriceConditionView>,
    pub category_tag: Option<Seq<char>>,
}

/// The views of `items`, in order.
pub open spec fn conditions_view(items: Seq<PriceCondition>) -> Seq<PriceConditionView> {
    Seq::new(items.len(), |i: int| items[i]@)
}

/// The character sequence of an optional text.
pub open spec fn optional_text(text: Option<String>) -> Option<Seq<char>> {
    match text {
        Some(t) => Some(t@),
        None => None,
    }
}

impl View for ApprovalMessage {
    type V = ApprovalMessageView;

    open spec fn view(&self) -> ApprovalMessageView {
        ApprovalMessageView {
            sale_conditions: conditions_view(self.sale_conditions@),
            category_tag: optional_text(self.category_tag),
        }
    }
}

/// The price that a condition asks: the named price, and zero, which stands for
/// "open to bids", where none is named.
pub open spec fn asking_price(price: Option<u128>) -> u128 {
    match price {
        Some(p) => p,
        None => 0,
    }
}

/// The price conditions of a listing: each currency of `entries` with the asking
/// price of its last entry.
pub open spec fn conditions_of(entries: Seq<PriceConditionView>) -> Map<Seq<char>, u128>
    decreases entries.len(),
{
    if entries.len() == 0 {
        Map::empty()
    } else {
        conditions_of(entries.drop_last()).insert(
            entries.last().currency_id,
            asking_price(entries.last().price),
        )
    }
}

/// Some entry of `entries` names the currency `c`.
pub open spec fn names_currency(entries: Seq<PriceConditionView>, c: Seq<char>) -> bool {
    exists|i: int| 0 <= i < entries.len() && (#[trigger] entries[i]).currency_id == c
}

/// No entry of `entries` after the one at `i` names the same currency.
pub open spec fn is_last_for_currency(entries: Seq<PriceConditionView>, i: int) -> bool {
    &&& 0 <= i < entries.len()
    &&& forall|j: int|
        i < j < entries.len() ==> (#[trigger] entries[j]).currency_id != entries[i].currency_id
}

/// The currencies of `conditions_of(entries)` are those that the entries name, and
/// each has the asking price of the last entry that names it.
pub proof fn lemma_conditions_of(entries: Seq<PriceConditionView>)
    ensures
        forall|c: Seq<char>| #[trigger]
            conditions_of(entries).contains_key(c) <==> names_currency(entries, c),
        forall|i: int| #[trigger]
            is_last_for_currency(entries, i) ==> conditions_of(entries)[entries[i].currency_id]
                == asking_price(entries[i].price),
    decreases entries.len(),
{
    if entries.len() > 0 {
        let rest = entries.drop_last();
        let last = entries.last();
        lemma_conditions_of(rest);
        assert(conditions_of(entries) == conditions_of(rest).insert(
            last.currency_id,
            asking_price(last.price),
        ));
        assert forall|c: Seq<char>| #[trigger]
            conditions_of(entries).contains_key(c) <==> names_currency(entries, c) by {
            if conditions_of(entries).contains_key(c) {
                if c == last.currency_id {
                    assert(entries[entries.len() - 1].currency_id == c);
                } else {
                    assert(conditions_of(rest).contains_key(c));
                    assert(names_currency(rest, c));
                    let i = choose|i: int| 0 <= i < rest.len() && (#[trigger] rest[i]).currency_id == c;
                    assert(entries[i].currency_id == c);
                }
            }
            if names_currency(entries, c) {
                let i = choose|i: int|
                    0 <= i < entries.len() && (#[trigger] entries[i]).currency_id == c;
                if i < rest.len() {
                    assert(rest[i].currency_id == c);
                    assert(names_currency(rest, c));
                    assert(conditions_of(rest).contains_key(c));
                }
            }
        }
        assert forall|i: int| #[trigger] is_last_for_currency(entries, i) implies conditions_of(
            entries,
        )[entries[i].currency_id] == asking_price(entries[i].price) by {
            if i < rest.len() {
                assert(entries[entries.len() - 1].currency_id != entries[i].currency_id);
                assert(rest[i] == entries[i]);
                assert forall|j: int| i < j < rest.len() implies (#[trigger] rest[j]).currency_id
                    != rest[i].currency_id by {
                    assert(entries[j].currency_id != entries[i].currency_id);
                }
                assert(is_last_for_currency(rest, i));
            }
        }
    } else {
        assert forall|c: Seq<char>| #[trigger]
            conditions_of(entries).contains_key(c) <==> names_currency(entries, c) by {}
    }
}

/// A bid on a listing.
#[derive(Debug, Clone, PartialEq, Eq)]
pub struct Bid {
    pub bidder_id: String,
    pub price: u128,
}

/// The mathematical value of a `Bid`.
pub struct BidView {
    pub bidder_id: Seq<char>,
    pub price: u128,
}

impl View for Bid {
    type V = BidView;

    open spec fn view(&self) -> BidView {
        BidView { bidder_id: self.bidder_id@, price: self.price }
    }
}

/// An item, or a whole category of items, offered for sale.
#[derive(Debug, Clone)]
pub struct Listing {
    /// The account that controls the listing and receives the proceeds.
    pub lister_id: String,
    /// The time at which the listing was written.
    pub created_at: u64,
    /// The credential of the grant; zero where the listing covers a category.
    pub approval_token: u64,
    /// The collection that the item belongs to.
    pub source_collection_id: String,
    /// The item within its collection; the category's name for a category listing.
    pub item_id: String,
    /// The asking price in each accepted currency; zero means "open to bids".
    pub price_conditions: TextMap<u128>,
    /// Whether the listing stands for a whole category.
    pub is_category_listing: bool,
    /// The category of a single item, where it has one.
    pub category_tag: Option<String>,
    /// The open bids by currency; approvals leave it empty.
    pub bids: Option<TextMap<Bid>>,
}

/// The mathematical value of a `Listing`.
pub struct ListingView {
    pub lister_id: Seq<char>,
    pub created_at: u64,
    pub approval_token: u64,
    pub source_collection_id: Seq<char>,
    pub item_id: Seq<char>,
    pub price_conditions: Map<Seq<char>, u128>,
    pub is_category_listing: bool,
    pub category_tag: Option<Seq<char>>,
    pub bids: Option<Map<Seq<char>, BidView>>,
}

impl ListingView {
    /// The key under which the listing is stored.
    pub open spec fn key(self) -> Seq<char> {
        listing_key_of(self.source_collection_id, self.item_id)
    }

    /// The key of the by-category index under which the listing is filed, if any:
    /// the category's name for a category listing, else the item's tag.
    pub open spec fn category(self) -> Option<Seq<char>> {
        if self.is_category_listing {
            Some(self.item_id)
        } else {
            self.category_tag
        }
    }
}

impl View for Listing {
    type V = ListingView;

    open spec fn view(&self) -> ListingView {
        ListingView {
            lister_id: self.lister_id@,
            created_at: self.created_at,
            approval_token: self.approval_token,
            source_collection_id: self.source_collection_id@,
            item_id: self.item_id@,
            price_conditions: self.price_conditions@,
            is_category_listing: self.is_category_listing,
            category_tag: optional_text(self.category_tag),
            bids: match self.bids {
                Some(b) => Some(b@),
                None => None,
            },
        }
    }
}

impl Listing {
    /// The maps of the listing are well formed.
    pub open spec fn wf(&self) -> bool {
        &&& self.price_conditions.wf()
        &&& self.bids matches Some(b) ==> b.wf()
    }
}

/// Builds the price conditions of a listing from the entries of a message.
pub fn price_table(entries: &Vec<PriceCondition>) -> (table: TextMap<u128>)
    ensures
        table.wf(),
        table@ == conditions_of(conditions_view(entries@)),
{
    let mut table: TextMap<u128> = TextMap::new();
    let mut i: usize = 0;
    while i < entries.len()
        invariant
            i <= entries.len(),
            table.wf(),
            table@ == conditions_of(conditions_view(entries@).take(i as int)),
        decreases entries.len() - i,
    {
        let price: u128 = match entries[i].price {
            Some(p) => p,
            None => 0,
        };
        table.insert(String::from_str(entries[i].currency_id.as_str()), price);
        proof {
            let all = conditions_view(entries@);
            assert(all.take(i + 1).drop_last() =~= all.take(i as int));
            assert(all.take(i + 1).last() == entries@[i as int]@);
        }
        i += 1;
    }
    assert(conditions_view(entries@).take(entries.len() as int) =~= conditions_view(entries@));
    table
}

} // verus!
