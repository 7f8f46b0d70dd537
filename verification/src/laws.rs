//! What holds of every approval, proved over the model of the market.

use vstd::prelude::*;
use crate::account::lemma_account_id_free_of_delimiter;
use crate::error::ApprovalError;
use crate::index::{index_add, members_of};
use crate::ledger::units_after_purchase;
use crate::listing::{conditions_of, ApprovalMessageView};
use crate::model::{all_supported, Approval, MarketView, RefundView};
use crate::text::{is_substring, lemma_listing_key_unique};

verus! {

/// Storing and filing a listing keeps every index set finite.
pub proof fn lemma_approval_keeps_finite(pre: MarketView, approval: Approval)
    requires
        pre.finite(),
    ensures
        pre.approve(approval) matches Ok(post) ==> post.finite(),
{
}

/// After an approval that succeeds the lister has no more listing keys filed than
/// it holds units; and where that held of every lister before the approval, it
/// holds of every lister after it.
pub proof fn lemma_quota_invariant(pre: MarketView, approval: Approval)
    requires
        pre.finite(),
    ensures
        pre.approve(approval) matches Ok(post) ==> post.listings_of(approval.lister_id)
            <= post.units(approval.lister_id),
        pre.approve(approval) matches Ok(post) ==> (pre.within_quota() ==> post.within_quota()),
{
    if pre.approve(approval) is Ok {
        let post = pre.approve(approval)->Ok_0;
        let lister = approval.lister_id;
        let before = members_of(pre.by_lister, lister);
        assert(pre.by_lister.contains_key(lister) ==> before.finite());
        assert(members_of(post.by_lister, lister) == before.insert(approval.key()));
        assert(post.listings_of(lister) <= pre.listings_of(lister) + 1);
        if pre.within_quota() {
            assert forall|other: Seq<char>| #[trigger]
                post.listings_of(other) <= post.units(other) by {
                if other != lister {
                    assert(members_of(post.by_lister, other) == members_of(pre.by_lister, other));
                    assert(pre.listings_of(other) <= pre.units(other));
                }
            }
        }
    }
}

/// Offering a payment for a unit takes no unit from any account.
pub proof fn lemma_purchase_keeps_quota(pre: MarketView, account: Seq<char>, payment: u128)
    requires
        pre.within_quota(),
    ensures
        pre.with_quota(
            units_after_purchase(pre.quota, pre.unit_cost, account, payment),
        ).within_quota(),
{
    let post = pre.with_quota(units_after_purchase(pre.quota, pre.unit_cost, account, payment));
    assert forall|lister: Seq<char>| #[trigger] post.listings_of(lister) <= post.units(lister) by {
        assert(pre.listings_of(lister) <= pre.units(lister));
    }
}

/// After the approval of a category that succeeds the lister has no more listing
/// keys filed than it holds units; and where that held of every lister before the
/// approval, it holds of every lister after it.
pub proof fn lemma_quota_invariant_category(
    pre: MarketView,
    source_collection_id: Seq<char>,
    created_at: u64,
    category_name: Seq<char>,
    lister_id: Seq<char>,
    message: ApprovalMessageView,
    payment: u128,
)
    requires
        pre.finite(),
    ensures
        pre.approve_category(
            source_collection_id,
            created_at,
            category_name,
            lister_id,
            message,
            payment,
        ) matches Ok(done) ==> done.0.listings_of(lister_id) <= done.0.units(lister_id) && (
        pre.within_quota() ==> done.0.within_quota()),
{
    let paid = pre.with_quota(units_after_purchase(pre.quota, pre.unit_cost, lister_id, payment));
    let approval = Approval {
        source_collection_id,
        created_at,
        lister_id,
        approval_token: 0,
        item_id: category_name,
        is_category: true,
        message: Some(message),
    };
    lemma_quota_invariant(paid, approval);
    if pre.within_quota() {
        lemma_purchase_keeps_quota(pre, lister_id, payment);
    }
}

/// Where each listing was stored under its own key and filed under its lister,
/// its collection and its category, the same holds after an approval; and the
/// listing that the approval wrote is filed under its lister and its collection,
/// and under its category where it has one.
pub proof fn lemma_index_symmetry(pre: MarketView, approval: Approval)
    ensures
        pre.approve(approval) matches Ok(post) ==> {
            let listing = approval.listing();
            &&& post.listings.contains_key(approval.key())
            &&& post.listings[approval.key()] == listing
            &&& members_of(post.by_lister, listing.lister_id).contains(approval.key())
            &&& members_of(post.by_collection, listing.source_collection_id).contains(
                approval.key(),
            )
            &&& listing.category() matches Some(c) ==> members_of(post.by_category, c).contains(
                approval.key(),
            )
        },
        pre.approve(approval) matches Ok(post) ==> (pre.indexed() ==> post.indexed()),
{
    if pre.approve(approval) is Ok {
        let post = pre.approve(approval)->Ok_0;
        let listing = approval.listing();
        let key = approval.key();
        assert(listing.key() == key);
        if pre.indexed() {
            assert forall|k: Seq<char>| #[trigger] post.listings.contains_key(k) implies ({
                let l = post.listings[k];
                &&& l.key() == k
                &&& members_of(post.by_lister, l.lister_id).contains(k)
                &&& members_of(post.by_collection, l.source_collection_id).contains(k)
                &&& l.category() matches Some(c) ==> members_of(post.by_category, c).contains(k)
            }) by {
                if k != key {
                    assert(pre.listings.contains_key(k));
                    let l = pre.listings[k];
                    lemma_index_add_grows(pre.by_lister, listing.lister_id, key, l.lister_id, k);
                    lemma_index_add_grows(
                        pre.by_collection,
                        listing.source_collection_id,
                        key,
                        l.source_collection_id,
                        k,
                    );
                    if l.category() is Some && listing.category() is Some {
                        lemma_index_add_grows(
                            pre.by_category,
                            listing.category()->0,
                            key,
                            l.category()->0,
                            k,
                        );
                    }
                }
            }
        }
    }
}

/// The approval of a category files the key of its listing under the lister, under
/// the collection and under the category's name; and where each listing was
/// stored under its own key and filed in the indices before, the same holds after.
pub proof fn lemma_index_symmetry_category(
    pre: MarketView,
    source_collection_id: Seq<char>,
    created_at: u64,
    category_name: Seq<char>,
    lister_id: Seq<char>,
    message: ApprovalMessageView,
    payment: u128,
)
    ensures
        pre.approve_category(
            source_collection_id,
            created_at,
            category_name,
            lister_id,
            message,
            payment,
        ) matches Ok(done) ==> {
            let key = crate::text::listing_key_of(source_collection_id, category_name);
            &&& done.0.listings.contains_key(key)
            &&& done.0.listings[key].is_category_listing
            &&& done.0.listings[key].approval_token == 0
            &&& members_of(done.0.by_lister, lister_id).contains(key)
            &&& members_of(done.0.by_collection, source_collection_id).contains(key)
            &&& members_of(done.0.by_category, category_name).contains(key)
            &&& pre.indexed() ==> done.0.indexed()
        },
{
    let paid = pre.with_quota(units_after_purchase(pre.quota, pre.unit_cost, lister_id, payment));
    let approval = Approval {
        source_collection_id,
        created_at,
        lister_id,
        approval_token: 0,
        item_id: category_name,
        is_category: true,
        message: Some(message),
    };
    if pre.indexed() {
        assert(paid.indexed());
    }
    lemma_index_symmetry(paid, approval);
}

/// Filing a listing key removes no key from any set of the index.
pub proof fn lemma_index_add_grows(
    index: Map<Seq<char>, Set<Seq<char>>>,
    key: Seq<char>,
    listing_key: Seq<char>,
    other: Seq<char>,
    member: Seq<char>,
)
    requires
        members_of(index, other).contains(member),
    ensures
        members_of(index_add(index, key, listing_key), other).contains(member),
{
}

/// Where the collection and the lister of every listing were named by account
/// identifiers, and those of the approval are, the same holds after the approval.
pub proof fn lemma_approval_keeps_names(pre: MarketView, approval: Approval)
    requires
        pre.well_named(),
        approval.well_named(),
    ensures
        pre.approve(approval) matches Ok(post) ==> post.well_named(),
{
}

/// A listing key belongs to one item of one collection: where an approval finds
/// a listing stored under its key, that listing is of the approval's collection
/// and of its item.
pub proof fn lemma_stored_key_names_item(pre: MarketView, approval: Approval)
    requires
        pre.indexed(),
        pre.well_named(),
        approval.well_named(),
        pre.listings.contains_key(approval.key()),
    ensures
        pre.listings[approval.key()].source_collection_id == approval.source_collection_id,
        pre.listings[approval.key()].item_id == approval.item_id,
{
    let stored = pre.listings[approval.key()];
    assert(stored.key() == approval.key());
    lemma_account_id_free_of_delimiter(stored.source_collection_id);
    lemma_account_id_free_of_delimiter(approval.source_collection_id);
    lemma_listing_key_unique(
        stored.source_collection_id,
        stored.item_id,
        approval.source_collection_id,
        approval.item_id,
    );
}

/// An approval overwrites nothing that belongs to another lister or category: the
/// key is new to the store, or the listing stored under it has the lister and
/// the category of the approval.
pub open spec fn keeps_owner(pre: MarketView, approval: Approval) -> bool {
    pre.listings.contains_key(approval.key()) ==> {
        let stored = pre.listings[approval.key()];
        &&& stored.lister_id == approval.lister_id
        &&& stored.category() == approval.listing().category()
    }
}

/// Where each key that an index filed belonged to a stored listing with that
/// lister, collection or category, the same holds after an approval that
/// overwrites no listing of another lister or category. (An approval that does
/// leaves the key filed under the lister or the category that it overwrote.)
pub proof fn lemma_index_exactness(pre: MarketView, approval: Approval)
    requires
        pre.indexed(),
        pre.well_named(),
        pre.exact(),
        approval.well_named(),
        keeps_owner(pre, approval),
    ensures
        pre.approve(approval) matches Ok(post) ==> post.exact(),
{
    if pre.approve(approval) is Ok {
        let post = pre.approve(approval)->Ok_0;
        let listing = approval.listing();
        let key = approval.key();
        assert(listing.key() == key);
        if pre.listings.contains_key(key) {
            lemma_stored_key_names_item(pre, approval);
        }
        assert forall|lister: Seq<char>, k: Seq<char>| #[trigger]
            members_of(post.by_lister, lister).contains(k) implies post.listings.contains_key(k)
            && post.listings[k].lister_id == lister by {
            if !(lister == listing.lister_id && k == key) {
                assert(members_of(pre.by_lister, lister).contains(k));
            }
        }
        assert forall|collection: Seq<char>, k: Seq<char>| #[trigger]
            members_of(post.by_collection, collection).contains(k) implies post.listings.contains_key(
            k,
        ) && post.listings[k].source_collection_id == collection by {
            if !(collection == listing.source_collection_id && k == key) {
                assert(members_of(pre.by_collection, collection).contains(k));
            }
        }
        assert forall|category: Seq<char>, k: Seq<char>| #[trigger]
            members_of(post.by_category, category).contains(k) implies post.listings.contains_key(
            k,
        ) && post.listings[k].category() == Some(category) by {
            if !(listing.category() == Some(category) && k == key) {
                assert(members_of(pre.by_category, category).contains(k));
            }
        }
    }
}

/// When the same item of the same collection is approved again for the same
/// lister, the listing holds the second approval's price conditions and nothing
/// of the first's, and the sets of the lister and of the collection are what they
/// were after the first approval.
pub proof fn lemma_upsert_overwrite(pre: MarketView, first: Approval, second: Approval)
    requires
        second.source_collection_id == first.source_collection_id,
        second.item_id == first.item_id,
        second.lister_id == first.lister_id,
    ensures
        (pre.approve(first) matches Ok(mid) && mid.approve(second) matches Ok(post)) ==> {
            let mid = pre.approve(first)->Ok_0;
            let post = mid.approve(second)->Ok_0;
            let key = first.key();
            &&& post.listings[key] == second.listing()
            &&& post.listings[key].price_conditions == conditions_of(
                second.message->0.sale_conditions,
            )
            &&& post.listings.dom() == mid.listings.dom()
            &&& members_of(post.by_lister, first.lister_id) == members_of(
                mid.by_lister,
                first.lister_id,
            )
            &&& members_of(post.by_collection, first.source_collection_id) == members_of(
                mid.by_collection,
                first.source_collection_id,
            )
            &&& post.listings_of(first.lister_id) == mid.listings_of(first.lister_id)
            &&& members_of(post.by_collection, first.source_collection_id).len() == members_of(
                mid.by_collection,
                first.source_collection_id,
            ).len()
        },
{
    if pre.approve(first) is Ok {
        let mid = pre.approve(first)->Ok_0;
        if mid.approve(second) is Ok {
            let post = mid.approve(second)->Ok_0;
            let key = first.key();
            assert(second.key() == key);
            assert(members_of(mid.by_lister, first.lister_id).contains(key));
            assert(members_of(post.by_lister, first.lister_id) =~= members_of(
                mid.by_lister,
                first.lister_id,
            ));
            assert(members_of(mid.by_collection, first.source_collection_id).contains(key));
            assert(members_of(post.by_collection, first.source_collection_id) =~= members_of(
                mid.by_collection,
                first.source_collection_id,
            ));
            assert(post.listings.dom() =~= mid.listings.dom());
        }
    }
}

/// An approval that passes the tests on quota, message and currencies is refused
/// for its category tag exactly when it carries one that is not a part of the
/// item's identifier.
pub proof fn lemma_category_rule(pre: MarketView, approval: Approval)
    requires
        pre.units(approval.lister_id) > pre.listings_of(approval.lister_id),
        approval.message matches Some(m) && all_supported(m.sale_conditions, pre.currencies),
    ensures
        pre.approve(approval) == Err::<MarketView, ApprovalError>(ApprovalError::InvalidCategoryTag)
            <==> (approval.category_tag() matches Some(tag) && !is_substring(
            tag,
            approval.item_id,
        )),
        pre.approve(approval) is Ok <==> !(approval.category_tag() matches Some(tag)
            && !is_substring(tag, approval.item_id)),
{
}

/// An approval of a lister that holds a unit, with a message that parsed, is
/// refused for its currencies exactly when one of its price conditions names a
/// currency that the market does not accept.
pub proof fn lemma_currency_gate(pre: MarketView, approval: Approval)
    requires
        pre.units(approval.lister_id) >= 1,
        approval.message is Some,
    ensures
        pre.approve(approval) == Err::<MarketView, ApprovalError>(
            ApprovalError::UnsupportedCurrency,
        ) <==> !all_supported(approval.message->0.sale_conditions, pre.currencies),
{
}

/// Where the payment covers the cost of a unit and the lister's count of units
/// can still grow, a category approval that succeeds leaves the lister with
/// exactly one unit more, owes it exactly the payment less the cost, and changes
/// the units of no other account.
pub proof fn lemma_category_refund(
    pre: MarketView,
    source_collection_id: Seq<char>,
    created_at: u64,
    category_name: Seq<char>,
    lister_id: Seq<char>,
    message: ApprovalMessageView,
    payment: u128,
)
    requires
        payment >= pre.unit_cost,
        pre.units(lister_id) < u128::MAX,
    ensures
        pre.approve_category(
            source_collection_id,
            created_at,
            category_name,
            lister_id,
            message,
            payment,
        ) matches Ok(done) ==> {
            &&& done.0.units(lister_id) == pre.units(lister_id) + 1
            &&& done.1 == (RefundView {
                account_id: lister_id,
                amount: (payment - pre.unit_cost) as u128,
            })
            &&& forall|other: Seq<char>|
                other != lister_id ==> #[trigger] done.0.units(other) == pre.units(other)
        },
{
}

} // verus!
