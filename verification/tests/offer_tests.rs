use tastyrock::items::OfferItem;
use tastyrock::offer::{parse_u32, OfferError, OfferStatus, OfferStore};

fn item(asset_id: &str, price: Option<u64>) -> OfferItem {
    OfferItem {
        asset_id: asset_id.to_string(),
        context_id: "2".to_string(),
        app_id: "730".to_string(),
        name: format!("item {asset_id}"),
        price,
        link: format!("https://example.test/{asset_id}"),
        image: format!("https://img.example.test/{asset_id}.png"),
    }
}

fn store_with_offer(offer_id: &str) -> OfferStore {
    let mut store = OfferStore::new();
    store
        .insert_offer("buyer1".to_string(), "trader1".to_string(), offer_id.to_string(), 1000)
        .unwrap();
    store
}

#[test]
fn fresh_offer_has_sentinel_round_zero() {
    let store = store_with_offer("offer1");
    let o = &store.offers[0];
    assert_eq!(o.offer_id, "offer1");
    assert_eq!(o.status, OfferStatus::InProcess);
    assert!(!o.accepted && !o.paid);
    assert_eq!(o.price, 0);
    assert_eq!(o.count, 0);
    assert_eq!(o.rounds.len(), 1);
    assert!(o.rounds[0].is_empty());
}

#[test]
fn duplicate_offer_id_is_refused() {
    let mut store = store_with_offer("offer1");
    let r = store.insert_offer("b".to_string(), "t".to_string(), "offer1".to_string(), 2000);
    assert!(matches!(r, Err(OfferError::DuplicateOfferId)));
    assert_eq!(store.offers.len(), 1);
}

#[test]
fn make_offer_retries_on_collision() {
    let mut store = store_with_offer("taken");
    let id = store
        .make_offer(
            "b".to_string(),
            "t".to_string(),
            vec!["taken".to_string(), "fresh".to_string()],
            2000,
        )
        .unwrap();
    assert_eq!(id, "fresh");
    assert_eq!(store.offers.len(), 2);

    let r = store.make_offer(
        "b".to_string(),
        "t".to_string(),
        vec!["taken".to_string(), "fresh".to_string()],
        3000,
    );
    assert!(matches!(r, Err(OfferError::NoFreshOfferId)));
    assert_eq!(store.offers.len(), 2);
}

#[test]
fn status_updates_follow_the_transition_table() {
    let mut store = store_with_offer("offer1");
    let oid = "offer1".to_string();

    assert!(store.update_status_offer(&oid, &"ACCEPTED".to_string(), 2000));
    let o = &store.offers[0];
    assert_eq!(o.status, OfferStatus::Accepted);
    assert!(o.accepted && !o.paid);

    assert!(store.update_status_offer(&oid, &"SUCCESS".to_string(), 3000));
    let o = &store.offers[0];
    assert_eq!(o.status, OfferStatus::Success);
    assert!(o.accepted && o.paid);

    assert!(store.update_status_offer(&oid, &"IN PROCESS".to_string(), 4000));
    let o = &store.offers[0];
    assert_eq!(o.status, OfferStatus::InProcess);
    assert!(!o.accepted && !o.paid);

    assert!(store.update_status_offer(&oid, &"PAY PROCESS".to_string(), 5000));
    let o = &store.offers[0];
    assert_eq!(o.status, OfferStatus::PayProcess);
    assert!(o.accepted && o.paid);

    // Anything else leaves the offer unchanged.
    assert!(store.update_status_offer(&oid, &"NONSENSE".to_string(), 6000));
    let o = &store.offers[0];
    assert_eq!(o.status, OfferStatus::PayProcess);
    assert!(o.accepted && o.paid);
    assert_eq!(o.last_update, 5000);
}

#[test]
fn status_update_for_unknown_offer_reports_false() {
    let mut store = store_with_offer("offer1");
    assert!(!store.update_status_offer(&"nope".to_string(), &"ACCEPTED".to_string(), 2000));
}

#[test]
fn negotiated_round_is_classified() {
    // Client A proposes [X@$5]; the trader counters with [X@$6, Y@$3]:
    // X is updated, Y is added, nothing is removed, and the aggregates are
    // recomputed from the new list.
    let mut store = store_with_offer("offer1");
    let oid = "offer1".to_string();

    let first = store.update_offer(&oid, vec![item("X", Some(5))], 2000).unwrap();
    assert_eq!(first.offer_id, "offer1");
    assert_eq!(first.total_price, 5);
    assert_eq!(first.total_count, 1);
    assert_eq!(first.added_items.len(), 1);
    assert_eq!(first.added_items[0].asset_id, "X");
    assert!(first.removed_items.is_empty());
    assert!(first.updated_items.is_empty());

    let second = store
        .update_offer(&oid, vec![item("X", Some(6)), item("Y", Some(3))], 3000)
        .unwrap();
    assert_eq!(second.total_price, 9);
    assert_eq!(second.total_count, 2);
    assert_eq!(second.updated_items.len(), 1);
    assert_eq!(second.updated_items[0].asset_id, "X");
    assert_eq!(second.added_items.len(), 1);
    assert_eq!(second.added_items[0].asset_id, "Y");
    assert!(second.removed_items.is_empty());
    assert_eq!(second.new_items.len(), 2);
}

#[test]
fn dropped_items_with_real_price_are_removed() {
    let mut store = store_with_offer("offer1");
    let oid = "offer1".to_string();
    store
        .update_offer(&oid, vec![item("X", Some(5)), item("Z", None)], 2000)
        .unwrap();
    let r = store.update_offer(&oid, vec![item("Y", Some(3))], 3000).unwrap();
    // X had a real price and was dropped; Z's price was the absent marker,
    // so it is not reported.
    assert_eq!(r.removed_items.len(), 1);
    assert_eq!(r.removed_items[0].asset_id, "X");
    assert_eq!(r.added_items.len(), 1);
    assert_eq!(r.added_items[0].asset_id, "Y");
}

#[test]
fn rounds_are_appended_never_rewritten() {
    let mut store = store_with_offer("offer1");
    let oid = "offer1".to_string();
    store.update_offer(&oid, vec![item("X", Some(5))], 2000).unwrap();
    store.update_offer(&oid, vec![item("X", Some(6)), item("Y", Some(3))], 3000).unwrap();
    let o = &store.offers[0];
    assert_eq!(o.rounds.len(), 3);
    assert!(o.rounds[0].is_empty());
    assert_eq!(o.rounds[1].len(), 1);
    assert_eq!(o.rounds[2].len(), 2);
    // Earlier rounds still hold their full snapshots.
    assert_eq!(o.rounds[1][0].asset_id, "X");
    assert_eq!(o.rounds[1][0].price, Some(5));
}

#[test]
fn update_offer_for_unknown_offer_is_refused() {
    let mut store = store_with_offer("offer1");
    let r = store.update_offer(&"nope".to_string(), vec![item("X", Some(5))], 2000);
    assert!(matches!(r, Err(OfferError::UnknownOffer)));
}

#[test]
fn check_to_pay_accepts_any_reordering() {
    let mut store = store_with_offer("offer1");
    let oid = "offer1".to_string();
    store.account_post_trade_url(
        "partner1".to_string(),
        "https://steamcommunity.com/tradeoffer/new/?partner=1&token=SECRET-REDACTED".to_string(),
    );
    store
        .update_offer(&oid, vec![item("X", Some(6)), item("Y", Some(3))], 2000)
        .unwrap();

    let claim = vec![item("Y", Some(3)), item("X", Some(6))];
    let r = store.check_offer_to_pay(&oid, &claim, &"partner1".to_string());
    assert!(r.check_result);
    assert_eq!(r.offer_items.len(), 2);
    assert_eq!(r.offer_items[0].asset_id, "X");
    assert_eq!(
        r.partner_trade_url,
        "https://steamcommunity.com/tradeoffer/new/?partner=1&token=SECRET-REDACTED"
    );
}

#[test]
fn check_to_pay_rejects_any_field_change() {
    let mut store = store_with_offer("offer1");
    let oid = "offer1".to_string();
    store.update_offer(&oid, vec![item("X", Some(6))], 2000).unwrap();

    // A changed price must fail the comparison.
    let r = store.check_offer_to_pay(&oid, &vec![item("X", Some(7))], &"p".to_string());
    assert!(!r.check_result);
    assert!(r.offer_items.is_empty());
    assert_eq!(r.partner_trade_url, "");

    // A missing item must fail it too.
    let r = store.check_offer_to_pay(&oid, &vec![], &"p".to_string());
    assert!(!r.check_result);

    // A duplicated item must fail: multiplicity counts.
    let r = store.check_offer_to_pay(
        &oid,
        &vec![item("X", Some(6)), item("X", Some(6))],
        &"p".to_string(),
    );
    assert!(!r.check_result);
}

#[test]
fn check_to_pay_for_unknown_offer_is_negative() {
    let store = store_with_offer("offer1");
    let r = store.check_offer_to_pay(&"nope".to_string(), &vec![item("X", Some(5))], &"p".to_string());
    assert!(!r.check_result);
    assert_eq!(r.offer_id, "nope");
}

#[test]
fn trade_url_can_be_reset() {
    let mut store = store_with_offer("offer1");
    let oid = "offer1".to_string();
    store.update_offer(&oid, vec![item("X", Some(5))], 2000).unwrap();
    store.account_post_trade_url("p1".to_string(), "https://example.test/t1".to_string());
    store.account_post_trade_url("p1".to_string(), "https://example.test/t2".to_string());

    let r = store.check_offer_to_pay(&oid, &vec![item("X", Some(5))], &"p1".to_string());
    assert_eq!(r.partner_trade_url, "https://example.test/t2");

    store.account_reset_trade_url(&"p1".to_string());
    let r = store.check_offer_to_pay(&oid, &vec![item("X", Some(5))], &"p1".to_string());
    assert!(r.check_result);
    assert_eq!(r.partner_trade_url, "");
}

#[test]
fn parse_u32_accepts_exactly_decimal_u32() {
    assert_eq!(parse_u32("0"), Some(0));
    assert_eq!(parse_u32("730"), Some(730));
    assert_eq!(parse_u32("4294967295"), Some(u32::MAX));
    assert_eq!(parse_u32("4294967296"), None);
    assert_eq!(parse_u32(""), None);
    assert_eq!(parse_u32("12a"), None);
    assert_eq!(parse_u32("-5"), None);
}
