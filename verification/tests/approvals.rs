use market::account::AccountId;
use market::error::ApprovalError;
use market::listing::{ApprovalMessage, PriceCondition};
use market::market::{ApprovalRequest, CallContext, Market, Refund};

const COST: u128 = 10;

fn id(name: &str) -> AccountId {
    AccountId::new(name).expect("an account identifier")
}

fn context(collection: &str, time: u64, deposit: u128) -> CallContext {
    CallContext {
        predecessor_account_id: id(collection),
        block_timestamp: time,
        attached_deposit: deposit,
    }
}

fn price(currency: &str, amount: Option<u128>) -> PriceCondition {
    PriceCondition { currency_id: id(currency), price: amount }
}

fn message(conditions: Vec<PriceCondition>, tag: Option<&str>) -> ApprovalMessage {
    ApprovalMessage { sale_conditions: conditions, category_tag: tag.map(|t| t.to_string()) }
}

fn market_with(currencies: &[&str], units: &[(&str, u32)]) -> Market {
    let mut market = Market::new(COST);
    for c in currencies {
        market.register_currency(&id(c));
    }
    for (account, n) in units {
        for _ in 0..*n {
            assert!(market.purchase_quota(&id(account), COST));
        }
    }
    market
}

fn snapshot(market: &Market) -> String {
    format!("{:?}", market)
}

#[test]
fn single_item_approval_stores_and_files_the_listing() {
    let mut market = market_with(&["near", "usdc"], &[("alice", 1)]);
    let msg = message(vec![price("near", Some(500)), price("usdc", None)], Some("abc"));
    let outcome = market.nft_on_approve(&context("nft.coll", 77, 0), "abc#123", &id("alice"), 9, Some(msg));
    assert_eq!(outcome, Ok(()));

    let listing = market.listings().get("nft.coll||abc#123").expect("the listing is stored");
    assert_eq!(listing.lister_id, "alice");
    assert_eq!(listing.created_at, 77);
    assert_eq!(listing.approval_token, 9);
    assert_eq!(listing.source_collection_id, "nft.coll");
    assert_eq!(listing.item_id, "abc#123");
    assert!(!listing.is_category_listing);
    assert_eq!(listing.category_tag, Some("abc".to_string()));
    assert!(listing.bids.is_none());
    assert_eq!(listing.price_conditions.len(), 2);
    assert_eq!(listing.price_conditions.get("near"), Some(&500));
    assert_eq!(listing.price_conditions.get("usdc"), Some(&0));

    assert_eq!(market.listings().len(), 1);
    assert_eq!(market.by_lister().members("alice"), vec!["nft.coll||abc#123".to_string()]);
    assert_eq!(market.by_collection().members("nft.coll"), vec!["nft.coll||abc#123".to_string()]);
    assert_eq!(market.by_category().members("abc"), vec!["nft.coll||abc#123".to_string()]);
    assert_eq!(market.ledger().current_quota_units("alice"), 1);
}

#[test]
fn approval_without_tag_leaves_the_category_index_alone() {
    let mut market = market_with(&["near"], &[("alice", 1)]);
    let msg = message(vec![price("near", Some(1))], None);
    assert_eq!(market.nft_on_approve(&context("cc", 1, 0), "item", &id("alice"), 1, Some(msg)), Ok(()));
    assert_eq!(market.by_category().count("item"), 0);
    assert_eq!(market.by_category().count(""), 0);
    assert_eq!(market.by_lister().count("alice"), 1);
    assert_eq!(market.by_collection().count("cc"), 1);
}

#[test]
fn category_tag_must_be_part_of_the_item_id() {
    let mut market = market_with(&["near"], &[("alice", 2)]);
    let good = message(vec![price("near", Some(1))], Some("abc"));
    assert_eq!(market.nft_on_approve(&context("cc", 1, 0), "abc#123", &id("alice"), 1, Some(good)), Ok(()));

    let before = snapshot(&market);
    let bad = message(vec![price("near", Some(1))], Some("xyz"));
    assert_eq!(
        market.nft_on_approve(&context("cc", 2, 0), "abc#123", &id("alice"), 2, Some(bad)),
        Err(ApprovalError::InvalidCategoryTag)
    );
    assert_eq!(snapshot(&market), before);
    assert_eq!(market.by_category().count("xyz"), 0);
}

#[test]
fn empty_category_tag_is_part_of_every_item_id() {
    let mut market = market_with(&["near"], &[("alice", 1)]);
    let msg = message(vec![], Some(""));
    assert_eq!(market.nft_on_approve(&context("cc", 1, 0), "t", &id("alice"), 1, Some(msg)), Ok(()));
    assert!(market.by_category().contains("", "cc||t"));
}

#[test]
fn unsupported_currency_is_refused_and_leaves_no_trace() {
    let mut market = market_with(&["near"], &[("alice", 1)]);
    let before = snapshot(&market);
    let msg = message(vec![price("near", Some(1)), price("doge", Some(2))], Some("t"));
    assert_eq!(
        market.nft_on_approve(&context("cc", 1, 0), "t1", &id("alice"), 1, Some(msg)),
        Err(ApprovalError::UnsupportedCurrency)
    );
    assert_eq!(snapshot(&market), before);
    assert_eq!(market.listings().len(), 0);
    assert!(market.listings().get("cc||t1").is_none());
    assert_eq!(market.by_lister().count("alice"), 0);
    assert_eq!(market.by_collection().count("cc"), 0);
    assert_eq!(market.by_category().count("t"), 0);
}

#[test]
fn unparsed_message_is_malformed() {
    let mut market = market_with(&["near"], &[("alice", 1)]);
    let before = snapshot(&market);
    assert_eq!(
        market.nft_on_approve(&context("cc", 1, 0), "t1", &id("alice"), 1, None),
        Err(ApprovalError::MalformedRequest)
    );
    assert_eq!(snapshot(&market), before);
}

#[test]
fn lister_without_a_unit_is_refused_before_the_message_is_looked_at() {
    let mut market = market_with(&["near"], &[]);
    let before = snapshot(&market);
    assert_eq!(
        market.nft_on_approve(&context("cc", 1, 0), "t1", &id("bob"), 1, None),
        Err(ApprovalError::InsufficientQuota)
    );
    let msg = message(vec![price("doge", None)], Some("zzz"));
    assert_eq!(
        market.nft_on_approve(&context("cc", 1, 0), "t1", &id("bob"), 1, Some(msg)),
        Err(ApprovalError::InsufficientQuota)
    );
    assert_eq!(snapshot(&market), before);
}

#[test]
fn currencies_are_judged_before_the_used_units_and_the_tag() {
    let mut market = market_with(&["near"], &[("alice", 1)]);
    let first = message(vec![price("near", None)], None);
    assert_eq!(market.nft_on_approve(&context("cc", 1, 0), "one", &id("alice"), 1, Some(first)), Ok(()));
    // The lister's only unit is used, the currency is unknown and the tag is wrong.
    let msg = message(vec![price("doge", None)], Some("zzz"));
    assert_eq!(
        market.nft_on_approve(&context("cc", 2, 0), "two", &id("alice"), 2, Some(msg)),
        Err(ApprovalError::UnsupportedCurrency)
    );
    // With an accepted currency the used unit decides, before the tag.
    let msg = message(vec![price("near", None)], Some("zzz"));
    assert_eq!(
        market.nft_on_approve(&context("cc", 2, 0), "two", &id("alice"), 2, Some(msg)),
        Err(ApprovalError::InsufficientQuota)
    );
}

#[test]
fn listings_never_exceed_the_units_paid_for() {
    let mut market = market_with(&["near"], &[("alice", 2), ("bob", 1)]);
    for (i, item) in ["a", "b"].iter().enumerate() {
        let msg = message(vec![price("near", Some(1))], None);
        assert_eq!(
            market.nft_on_approve(&context("cc", i as u64, 0), item, &id("alice"), 1, Some(msg)),
            Ok(())
        );
        assert!(market.by_lister().count("alice") as u128 <= market.ledger().current_quota_units("alice"));
    }
    let before = snapshot(&market);
    let msg = message(vec![price("near", Some(1))], None);
    assert_eq!(
        market.nft_on_approve(&context("cc", 9, 0), "third", &id("alice"), 1, Some(msg)),
        Err(ApprovalError::InsufficientQuota)
    );
    assert_eq!(snapshot(&market), before);
    assert_eq!(market.by_lister().count("alice"), 2);
    assert_eq!(market.ledger().current_quota_units("alice"), 2);
    // Another lister's unit is its own.
    let msg = message(vec![price("near", Some(1))], None);
    assert_eq!(market.nft_on_approve(&context("cc", 9, 0), "third", &id("bob"), 1, Some(msg)), Ok(()));
    assert_eq!(market.by_lister().count("bob"), 1);
}

#[test]
fn approving_the_same_item_again_overwrites_the_listing() {
    let mut market = market_with(&["near", "usdc"], &[("alice", 2)]);
    let first = message(vec![price("near", Some(5))], None);
    assert_eq!(market.nft_on_approve(&context("cc", 10, 0), "item", &id("alice"), 1, Some(first)), Ok(()));
    let second = message(vec![price("usdc", Some(7))], None);
    assert_eq!(market.nft_on_approve(&context("cc", 20, 0), "item", &id("alice"), 2, Some(second)), Ok(()));

    let listing = market.listings().get("cc||item").expect("stored");
    assert_eq!(listing.price_conditions.len(), 1);
    assert_eq!(listing.price_conditions.get("usdc"), Some(&7));
    assert_eq!(listing.price_conditions.get("near"), None);
    assert_eq!(listing.created_at, 20);
    assert_eq!(listing.approval_token, 2);
    assert_eq!(market.listings().len(), 1);
    assert_eq!(market.by_lister().count("alice"), 1);
    assert_eq!(market.by_collection().count("cc"), 1);
}

#[test]
fn reapproval_of_a_listed_item_needs_a_free_unit() {
    let mut market = market_with(&["near"], &[("alice", 1)]);
    let first = message(vec![price("near", Some(5))], None);
    assert_eq!(market.nft_on_approve(&context("cc", 10, 0), "item", &id("alice"), 1, Some(first)), Ok(()));
    let second = message(vec![price("near", Some(6))], None);
    assert_eq!(
        market.nft_on_approve(&context("cc", 20, 0), "item", &id("alice"), 2, Some(second)),
        Err(ApprovalError::InsufficientQuota)
    );
    assert_eq!(market.listings().get("cc||item").expect("stored").price_conditions.get("near"), Some(&5));
}

#[test]
fn reapproval_for_another_lister_keeps_the_first_listers_index_entry() {
    let mut market = market_with(&["near"], &[("alice", 1), ("bob", 1)]);
    let first = message(vec![price("near", Some(5))], Some("it"));
    assert_eq!(market.nft_on_approve(&context("cc", 10, 0), "item", &id("alice"), 1, Some(first)), Ok(()));
    let second = message(vec![price("near", Some(6))], None);
    assert_eq!(market.nft_on_approve(&context("cc", 20, 0), "item", &id("bob"), 2, Some(second)), Ok(()));
    let listing = market.listings().get("cc||item").expect("stored");
    assert_eq!(listing.lister_id, "bob");
    assert_eq!(listing.category_tag, None);
    assert!(market.by_lister().contains("bob", "cc||item"));
    assert!(market.by_lister().contains("alice", "cc||item"));
    assert!(market.by_category().contains("it", "cc||item"));
    assert_eq!(market.by_collection().count("cc"), 1);
}

#[test]
fn last_price_of_a_currency_wins() {
    let mut market = market_with(&["near"], &[("alice", 1)]);
    let msg = message(vec![price("near", Some(5)), price("near", None), price("near", Some(8))], None);
    assert_eq!(market.nft_on_approve(&context("cc", 1, 0), "item", &id("alice"), 1, Some(msg)), Ok(()));
    let listing = market.listings().get("cc||item").expect("stored");
    assert_eq!(listing.price_conditions.len(), 1);
    assert_eq!(listing.price_conditions.get("near"), Some(&8));
}

#[test]
fn every_stored_listing_is_filed_in_its_indices() {
    let mut market = market_with(&["near"], &[("alice", 3), ("bob", 1)]);
    let approvals = [
        ("c1", "abc#1", "alice", Some("abc")),
        ("c1", "abc#2", "alice", None),
        ("c2", "abc#1", "bob", Some("#1")),
        ("c2", "x", "alice", Some("x")),
    ];
    for (collection, item, lister, tag) in approvals {
        let msg = message(vec![price("near", None)], tag);
        assert_eq!(market.nft_on_approve(&context(collection, 1, 0), item, &id(lister), 1, Some(msg)), Ok(()));
    }
    assert_eq!(market.listings().len(), 4);
    for (collection, item, lister, tag) in approvals {
        let key = format!("{}||{}", collection, item);
        let listing = market.listings().get(&key).expect("stored");
        assert_eq!(listing.lister_id, lister);
        assert!(market.by_lister().contains(lister, &key));
        assert!(market.by_collection().contains(collection, &key));
        match tag {
            Some(t) => assert!(market.by_category().contains(t, &key)),
            None => assert_eq!(listing.category_tag, None),
        }
    }
    assert_eq!(market.by_lister().count("alice"), 3);
    assert_eq!(market.by_lister().count("bob"), 1);
    assert_eq!(market.by_collection().count("c1"), 2);
    assert_eq!(market.by_collection().count("c2"), 2);
    assert_eq!(market.by_category().count("abc"), 1);
}

#[test]
fn category_approval_buys_a_unit_and_refunds_the_excess() {
    let mut market = market_with(&["near"], &[]);
    let msg = message(vec![price("near", Some(3))], Some("ignored"));
    let outcome = market.series_on_approve(&context("coll", 5, 25), "dragons", &id("carol"), msg);
    assert_eq!(outcome, Ok(Refund { account_id: id("carol"), amount: 15 }));
    assert_eq!(market.ledger().current_quota_units("carol"), 1);

    let listing = market.listings().get("coll||dragons").expect("stored");
    assert_eq!(listing.lister_id, "carol");
    assert_eq!(listing.created_at, 5);
    assert_eq!(listing.approval_token, 0);
    assert_eq!(listing.item_id, "dragons");
    assert!(listing.is_category_listing);
    assert_eq!(listing.category_tag, None);
    assert!(listing.bids.is_none());
    assert_eq!(listing.price_conditions.get("near"), Some(&3));
    assert!(market.by_lister().contains("carol", "coll||dragons"));
    assert!(market.by_collection().contains("coll", "coll||dragons"));
    assert!(market.by_category().contains("dragons", "coll||dragons"));
    assert_eq!(market.by_category().count("ignored"), 0);
}

#[test]
fn category_approval_with_exact_payment_refunds_nothing() {
    let mut market = market_with(&["near"], &[("carol", 1)]);
    let msg = message(vec![], None);
    let outcome = market.series_on_approve(&context("coll", 5, COST), "cats", &id("carol"), msg);
    assert_eq!(outcome, Ok(Refund { account_id: id("carol"), amount: 0 }));
    assert_eq!(market.ledger().current_quota_units("carol"), 2);
    assert_eq!(market.by_lister().count("carol"), 1);
}

#[test]
fn category_approval_with_short_payment_buys_nothing() {
    let mut market = market_with(&["near"], &[]);
    let before = snapshot(&market);
    let msg = message(vec![], None);
    assert_eq!(
        market.series_on_approve(&context("coll", 5, COST - 1), "cats", &id("carol"), msg),
        Err(ApprovalError::InsufficientQuota)
    );
    assert_eq!(snapshot(&market), before);
    assert_eq!(market.ledger().current_quota_units("carol"), 0);

    // A lister with a free unit is listed on that unit, and nothing is owed back.
    let mut market = market_with(&["near"], &[("carol", 1)]);
    let msg = message(vec![], None);
    assert_eq!(
        market.series_on_approve(&context("coll", 5, COST - 1), "cats", &id("carol"), msg),
        Ok(Refund { account_id: id("carol"), amount: 0 })
    );
    assert_eq!(market.ledger().current_quota_units("carol"), 1);
    assert_eq!(market.by_lister().count("carol"), 1);
}

#[test]
fn refused_category_approval_charges_no_unit() {
    let mut market = market_with(&["near"], &[("carol", 1)]);
    let before = snapshot(&market);
    let msg = message(vec![price("doge", Some(1))], None);
    assert_eq!(
        market.series_on_approve(&context("coll", 5, 40), "cats", &id("carol"), msg),
        Err(ApprovalError::UnsupportedCurrency)
    );
    assert_eq!(snapshot(&market), before);
    assert_eq!(market.ledger().current_quota_units("carol"), 1);
    assert_eq!(market.by_category().count("cats"), 0);
}

#[test]
fn general_approval_takes_both_kinds() {
    let mut market = market_with(&["near"], &[("alice", 2)]);
    let item = ApprovalRequest {
        source_collection_id: id("cc"),
        created_at: 1,
        lister_id: id("alice"),
        approval_token: 4,
        item_id: "gold-1".to_string(),
        is_category: false,
        message: Some(message(vec![price("near", Some(2))], Some("gold"))),
    };
    assert_eq!(market.approve(item), Ok(()));
    let category = ApprovalRequest {
        source_collection_id: id("cc"),
        created_at: 2,
        lister_id: id("alice"),
        approval_token: 0,
        item_id: "gold".to_string(),
        is_category: true,
        message: Some(message(vec![price("near", Some(9))], Some("not a part"))),
    };
    assert_eq!(market.approve(category), Ok(()));
    assert_eq!(market.by_category().count("gold"), 2);
    assert!(market.by_category().contains("gold", "cc||gold-1"));
    assert!(market.by_category().contains("gold", "cc||gold"));
    assert_eq!(market.listings().get("cc||gold").expect("stored").category_tag, None);
    assert_eq!(market.ledger().current_quota_units("alice"), 2);
}

#[test]
fn new_market_is_empty() {
    let market = Market::new(7);
    assert_eq!(market.listings().len(), 0);
    assert_eq!(market.ledger().unit_cost(), 7);
    assert_eq!(market.ledger().current_quota_units("anyone"), 0);
    assert!(!market.currencies().is_supported_currency("near"));
    assert_eq!(market.by_lister().count("anyone"), 0);
}

#[test]
fn registering_a_currency_twice_adds_it_once() {
    let mut market = Market::new(1);
    assert!(market.register_currency(&id("near")));
    assert!(!market.register_currency(&id("near")));
    assert!(market.currencies().is_supported_currency("near"));
    assert!(!market.currencies().is_supported_currency("nea"));
}

#[test]
fn purchase_needs_the_cost_of_a_unit() {
    let mut market = Market::new(10);
    assert!(!market.purchase_quota(&id("alice"), 9));
    assert_eq!(market.ledger().current_quota_units("alice"), 0);
    assert!(market.purchase_quota(&id("alice"), 10));
    assert!(market.purchase_quota(&id("alice"), 1000));
    assert_eq!(market.ledger().current_quota_units("alice"), 2);
    assert_eq!(market.ledger().current_quota_units("bob"), 0);
}

#[test]
fn each_refusal_has_its_words() {
    let all = [
        ApprovalError::MalformedRequest,
        ApprovalError::UnsupportedCurrency,
        ApprovalError::InvalidCategoryTag,
        ApprovalError::InsufficientQuota,
    ];
    assert_eq!(ApprovalError::MalformedRequest.message(), "the approval message does not parse");
    assert_eq!(
        ApprovalError::UnsupportedCurrency.message(),
        "a price condition names a currency that this market does not accept"
    );
    assert_eq!(
        ApprovalError::InvalidCategoryTag.message(),
        "the category tag is not a part of the item identifier"
    );
    assert_eq!(
        ApprovalError::InsufficientQuota.message(),
        "the lister holds no unit for one more listing"
    );
    for (i, a) in all.iter().enumerate() {
        for (j, b) in all.iter().enumerate() {
            assert_eq!(a.message() == b.message(), i == j);
        }
    }
}
