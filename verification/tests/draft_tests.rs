use tastyrock::draft::{
    check_offer_to_pay_and_draft, CheckToPayError, CheckToPayOutcome, DraftError, DraftItem,
    DraftStore,
};
use tastyrock::items::OfferItem;
use tastyrock::offer::OfferStore;

fn item(asset_id: &str, app_id: &str, price: Option<u64>) -> OfferItem {
    OfferItem {
        asset_id: asset_id.to_string(),
        context_id: "2".to_string(),
        app_id: app_id.to_string(),
        name: format!("item {asset_id}"),
        price,
        link: String::new(),
        image: String::new(),
    }
}

fn give_item(assetid: &str) -> DraftItem {
    DraftItem {
        appid: 730,
        contextid: "2".to_string(),
        assetid: assetid.to_string(),
        amount: 1,
    }
}

#[test]
fn draft_roundtrip_is_idempotent() {
    let mut drafts = DraftStore::new();
    drafts
        .create_draft(
            "d1".to_string(),
            "offer1".to_string(),
            "https://example.test/trade".to_string(),
            false,
            vec![give_item("77")],
            1000,
        )
        .unwrap();
    for _ in 0..2 {
        let d = drafts.get_draft(&"d1".to_string()).unwrap();
        assert_eq!(d.offer_id, "offer1");
        assert_eq!(d.partner_trade_url, "https://example.test/trade");
        assert!(!d.autosend);
        assert_eq!(d.created_at, 1000);
        assert_eq!(d.give_items.len(), 1);
        assert_eq!(d.give_items[0].assetid, "77");
        assert_eq!(d.give_items[0].appid, 730);
        assert_eq!(d.give_items[0].amount, 1);
    }
}

#[test]
fn get_draft_reports_not_found() {
    let drafts = DraftStore::new();
    assert!(matches!(drafts.get_draft(&"nope".to_string()), Err(DraftError::DraftNotFound)));
}

#[test]
fn refused_creation_leaves_no_draft_row() {
    let mut drafts = DraftStore::new();
    drafts
        .create_draft(
            "d1".to_string(),
            "offer1".to_string(),
            "url1".to_string(),
            false,
            vec![give_item("77")],
            1000,
        )
        .unwrap();
    // A colliding creation fails as a whole: the stored draft is untouched
    // and nothing of the refused one is visible.
    let r = drafts.create_draft(
        "d1".to_string(),
        "offer2".to_string(),
        "url2".to_string(),
        true,
        vec![give_item("88"), give_item("99")],
        2000,
    );
    assert!(matches!(r, Err(DraftError::DraftIdTaken)));
    let d = drafts.get_draft(&"d1".to_string()).unwrap();
    assert_eq!(d.offer_id, "offer1");
    assert_eq!(d.give_items.len(), 1);
    assert!(matches!(drafts.get_draft(&"d2".to_string()), Err(DraftError::DraftNotFound)));
}

fn prepared_stores() -> (OfferStore, DraftStore) {
    let mut offers = OfferStore::new();
    offers
        .insert_offer("buyer1".to_string(), "trader1".to_string(), "offer1".to_string(), 1000)
        .unwrap();
    offers
        .update_offer(
            &"offer1".to_string(),
            vec![item("X", "730", Some(6)), item("Y", "440", Some(3))],
            2000,
        )
        .unwrap();
    offers.account_post_trade_url(
        "trader1".to_string(),
        "https://steamcommunity.com/tradeoffer/new/?partner=9".to_string(),
    );
    (offers, DraftStore::new())
}

#[test]
fn matching_claim_is_authorized_and_drafted() {
    let (offers, mut drafts) = prepared_stores();
    let claim = vec![item("Y", "440", Some(3)), item("X", "730", Some(6))];
    let r = check_offer_to_pay_and_draft(
        &offers,
        &mut drafts,
        &"offer1".to_string(),
        &claim,
        &"trader1".to_string(),
        "draft1".to_string(),
        false,
        3000,
    )
    .unwrap();
    match r {
        CheckToPayOutcome::Authorized { offer_id, draft_id, steam_url } => {
            assert_eq!(offer_id, "offer1");
            assert_eq!(draft_id, "draft1");
            assert_eq!(
                steam_url,
                "https://steamcommunity.com/tradeoffer/new/?partner=9&tastyrock=draft1"
            );
        }
        _ => panic!("expected authorization"),
    }
    let d = drafts.get_draft(&"draft1".to_string()).unwrap();
    assert_eq!(d.offer_id, "offer1");
    assert_eq!(d.give_items.len(), 2);
    assert_eq!(d.give_items[0].appid, 730);
    assert_eq!(d.give_items[0].assetid, "X");
    assert_eq!(d.give_items[1].appid, 440);
    assert_eq!(d.give_items[1].assetid, "Y");
    assert_eq!(d.give_items[0].amount, 1);
}

#[test]
fn mismatching_claim_is_rejected_without_a_draft() {
    let (offers, mut drafts) = prepared_stores();
    let claim = vec![item("X", "730", Some(5))];
    let r = check_offer_to_pay_and_draft(
        &offers,
        &mut drafts,
        &"offer1".to_string(),
        &claim,
        &"trader1".to_string(),
        "draft1".to_string(),
        false,
        3000,
    )
    .unwrap();
    assert!(matches!(r, CheckToPayOutcome::Rejected { offer_id } if offer_id == "offer1"));
    assert!(matches!(drafts.get_draft(&"draft1".to_string()), Err(DraftError::DraftNotFound)));
}

#[test]
fn bad_app_id_aborts_without_a_draft() {
    let mut offers = OfferStore::new();
    offers
        .insert_offer("buyer1".to_string(), "trader1".to_string(), "offer1".to_string(), 1000)
        .unwrap();
    offers
        .update_offer(&"offer1".to_string(), vec![item("X", "not a number", Some(6))], 2000)
        .unwrap();
    let mut drafts = DraftStore::new();
    // The step fails between the successful check and the finished draft;
    // atomicity demands that no draft row exists afterwards.
    let r = check_offer_to_pay_and_draft(
        &offers,
        &mut drafts,
        &"offer1".to_string(),
        &vec![item("X", "not a number", Some(6))],
        &"trader1".to_string(),
        "draft1".to_string(),
        false,
        3000,
    );
    assert!(matches!(r, Err(CheckToPayError::BadAppId)));
    assert!(matches!(drafts.get_draft(&"draft1".to_string()), Err(DraftError::DraftNotFound)));
}

#[test]
fn taken_draft_id_aborts_without_a_second_draft() {
    let (offers, mut drafts) = prepared_stores();
    drafts
        .create_draft(
            "draft1".to_string(),
            "other".to_string(),
            "url".to_string(),
            false,
            vec![],
            500,
        )
        .unwrap();
    let claim = vec![item("X", "730", Some(6)), item("Y", "440", Some(3))];
    let r = check_offer_to_pay_and_draft(
        &offers,
        &mut drafts,
        &"offer1".to_string(),
        &claim,
        &"trader1".to_string(),
        "draft1".to_string(),
        false,
        3000,
    );
    assert!(matches!(r, Err(CheckToPayError::DraftIdTaken)));
    let d = drafts.get_draft(&"draft1".to_string()).unwrap();
    assert_eq!(d.offer_id, "other");
}

#[test]
fn unknown_offer_claim_is_rejected() {
    let (offers, mut drafts) = prepared_stores();
    let r = check_offer_to_pay_and_draft(
        &offers,
        &mut drafts,
        &"nope".to_string(),
        &vec![item("X", "730", Some(6))],
        &"trader1".to_string(),
        "draft1".to_string(),
        false,
        3000,
    )
    .unwrap();
    assert!(matches!(r, CheckToPayOutcome::Rejected { .. }));
}
