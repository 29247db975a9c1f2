use std::collections::VecDeque;

use tastyrock::inventory::{
    context_for_app, keep_only_tradable, Inventory, InventoryAsset, InventoryDescription,
};
use tastyrock::market::{
    FilterInput, MarketRequest, MostRecentItemsFilter, MostRecentItemsRequest, Sort,
    SortDirection, UserAdsQueue, UserProfileAds,
};

#[test]
fn most_recent_request_defaults() {
    let r = MostRecentItemsRequest::request_paramenters(None, None, None);
    assert_eq!(r.country, "US");
    assert_eq!(r.language, "english");
    assert_eq!(r.currency, "3");
}

#[test]
fn most_recent_request_overrides() {
    let r = MostRecentItemsRequest::request_paramenters(
        Some("DE".to_string()),
        Some("german".to_string()),
        Some("1".to_string()),
    );
    assert_eq!(r.country, "DE");
    assert_eq!(r.language, "german");
    assert_eq!(r.currency, "1");
}

#[test]
fn market_request_defaults() {
    let r = MarketRequest::request_paramenters(
        None, None, None, None, None, None, None, None, None,
    );
    assert_eq!(r.game, 730);
    assert_eq!(r.count, 10);
    assert_eq!(r.page, 0);
    assert_eq!(r.query, "");
    assert_eq!(r.sort, "");
    assert_eq!(r.sort_dir, "");
    assert!(!r.search_descriptions);
    assert_eq!(r.price_min, 0);
    assert_eq!(r.price_max, u32::MAX);
}

#[test]
fn market_request_prices_in_minor_units() {
    let r = MarketRequest::request_paramenters(
        Some(440),
        Some(25),
        Some(2),
        Some("knife".to_string()),
        Some(Sort::Price),
        Some(SortDirection::Asc),
        Some(true),
        Some(50),
        Some(100),
    );
    assert_eq!(r.game, 440);
    assert_eq!(r.count, 25);
    assert_eq!(r.page, 2);
    assert_eq!(r.query, "knife");
    assert_eq!(r.sort, "price");
    assert_eq!(r.sort_dir, "asc");
    assert!(r.search_descriptions);
    assert_eq!(r.price_min, 5000);
    assert_eq!(r.price_max, 10000);
}

#[test]
fn sort_labels() {
    let r = MarketRequest::request_paramenters(
        None, None, None, None, Some(Sort::Quantity), Some(SortDirection::Desc), None, None, None,
    );
    assert_eq!(r.sort, "quantity");
    assert_eq!(r.sort_dir, "desc");
}

#[test]
fn filter_input_defaults() {
    let f = FilterInput::default();
    assert_eq!(f.appid, "Steam");
    assert_eq!(f.price_min, "0");
    assert_eq!(f.price_max, "999999");
    assert_eq!(f.query, "");
    let m = MostRecentItemsFilter::from_input(&f);
    assert_eq!(m.appid, "Steam");
    assert_eq!(m.price_max, "999999");
}

fn card(id: &str) -> UserProfileAds {
    UserProfileAds {
        steamid: id.to_string(),
        name: format!("user {id}"),
        image: String::new(),
    }
}

#[test]
fn ad_queue_rotates_front_to_back() {
    let mut q = UserAdsQueue { queue: VecDeque::from([card("a"), card("b"), card("c")]) };
    q.rotate();
    let order: Vec<&str> = q.queue.iter().map(|c| c.steamid.as_str()).collect();
    assert_eq!(order, vec!["b", "c", "a"]);
    q.rotate();
    let order: Vec<&str> = q.queue.iter().map(|c| c.steamid.as_str()).collect();
    assert_eq!(order, vec!["c", "a", "b"]);
}

#[test]
fn empty_ad_queue_stays_empty() {
    let mut q = UserAdsQueue { queue: VecDeque::new() };
    q.rotate();
    assert!(q.queue.is_empty());
}

fn asset(assetid: &str, classid: Option<&str>, instanceid: Option<&str>) -> InventoryAsset {
    InventoryAsset {
        appid: 730,
        contextid: "2".to_string(),
        assetid: assetid.to_string(),
        classid: classid.map(|s| s.to_string()),
        instanceid: instanceid.map(|s| s.to_string()),
        amount: "1".to_string(),
    }
}

fn description(classid: &str, instanceid: &str, tradable: usize) -> InventoryDescription {
    InventoryDescription {
        appid: 730,
        classid: Some(classid.to_string()),
        instanceid: Some(instanceid.to_string()),
        tradable: Some(tradable),
        market_hash_name: Some(format!("{classid}-{instanceid}")),
    }
}

#[test]
fn keep_only_tradable_prunes_assets_and_descriptions() {
    let inv = Inventory {
        assets: vec![
            asset("1", Some("c1"), Some("i1")),
            asset("2", Some("c2"), Some("i2")),
            asset("3", None, Some("i1")),
        ],
        descriptions: vec![description("c1", "i1", 1), description("c2", "i2", 0)],
        asset_properties: vec![],
        total_inventory_count: Some(3),
        success: Some(1),
        rwgrsn: None,
    };
    let pruned = keep_only_tradable(inv);
    assert_eq!(pruned.descriptions.len(), 1);
    assert_eq!(pruned.descriptions[0].classid.as_deref(), Some("c1"));
    assert_eq!(pruned.assets.len(), 1);
    assert_eq!(pruned.assets[0].assetid, "1");
    assert_eq!(pruned.total_inventory_count, Some(1));
    assert_eq!(pruned.success, Some(1));
    assert_eq!(pruned.rwgrsn, None);
}

#[test]
fn inventory_context_depends_on_app() {
    assert_eq!(context_for_app(&"753".to_string()), "6");
    assert_eq!(context_for_app(&"730".to_string()), "2");
}
