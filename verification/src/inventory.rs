//! The inventory shapes the settings page works with, and the pruning that
//! keeps only tradable assets before an inventory is shown. Fetching the
//! inventory is the transport's job.

use vstd::prelude::*;

use crate::seqs::{filtered, lemma_filtered_len};

verus! {

/// One asset of a fetched inventory.
#[derive(Debug)]
pub struct InventoryAsset {
    pub appid: usize,
    pub contextid: String,
    pub assetid: String,
    pub classid: Option<String>,
    pub instanceid: Option<String>,
    pub amount: String,
}

/// One item class description of a fetched inventory; `tradable` is 1 for a
/// tradable class.
#[derive(Debug)]
pub struct InventoryDescription {
    pub appid: usize,
    pub classid: Option<String>,
    pub instanceid: Option<String>,
    pub tradable: Option<usize>,
    pub market_hash_name: Option<String>,
}

/// A fetched inventory.
#[derive(Debug)]
pub struct Inventory {
    pub assets: Vec<InventoryAsset>,
    pub descriptions: Vec<InventoryDescription>,
    pub asset_properties: Vec<String>,
    pub total_inventory_count: Option<u32>,
    pub success: Option<u32>,
    pub rwgrsn: Option<u32>,
}

/// The mathematical value of an asset's class key.
#[verifier::ext_equal]
pub struct AssetKeyView {
    pub classid: Option<Seq<char>>,
    pub instanceid: Option<Seq<char>>,
}

pub open spec fn opt_view(o: Option<String>) -> Option<Seq<char>> {
    match o {
        Some(s) => Some(s@),
        None => None,
    }
}

pub open spec fn asset_key(a: InventoryAsset) -> AssetKeyView {
    AssetKeyView { classid: opt_view(a.classid), instanceid: opt_view(a.instanceid) }
}

pub open spec fn description_key(d: InventoryDescription) -> AssetKeyView {
    AssetKeyView { classid: opt_view(d.classid), instanceid: opt_view(d.instanceid) }
}

/// A description marks its class tradable and names it completely.
pub open spec fn is_tradable_description(d: InventoryDescription) -> bool {
    d.tradable == Some(1usize) && d.classid is Some && d.instanceid is Some
}

/// The asset's class is named completely and some description marks it
/// tradable.
pub open spec fn asset_kept(a: InventoryAsset, descriptions: Seq<InventoryDescription>) -> bool {
    &&& a.classid is Some
    &&& a.instanceid is Some
    &&& exists|i: int|
        0 <= i < descriptions.len() && is_tradable_description(#[trigger] descriptions[i])
            && description_key(descriptions[i]) == asset_key(a)
}

fn opt_string_eq(a: &Option<String>, b: &Option<String>) -> (r: bool)
    ensures
        r == (opt_view(*a) == opt_view(*b)),
{
    match (a, b) {
        (None, None) => true,
        (Some(x), Some(y)) => *x == *y,
        _ => false,
    }
}

/// Whether some description of `descriptions` marks the class of `a`
/// tradable.
fn find_tradable_description(
    descriptions: &Vec<InventoryDescription>,
    a: &InventoryAsset,
) -> (r: bool)
    ensures
        r == asset_kept(*a, descriptions@),
{
    let class_named = a.classid.is_some() && a.instanceid.is_some();
    if !class_named {
        return false;
    }
    let n = descriptions.len();
    let mut i: usize = 0;
    while i < n
        invariant
            n == descriptions@.len(),
            0 <= i <= n,
            a.classid is Some && a.instanceid is Some,
            forall|k: int|
                0 <= k < i ==> !(is_tradable_description(#[trigger] descriptions@[k])
                    && description_key(descriptions@[k]) == asset_key(*a)),
        decreases n - i,
    {
        let d = &descriptions[i];
        let tradable = match &d.tradable {
            Some(t) => *t == 1,
            None => false,
        };
        if tradable && d.classid.is_some() && d.instanceid.is_some() && opt_string_eq(
            &d.classid,
            &a.classid,
        ) && opt_string_eq(&d.instanceid, &a.instanceid) {
            assert(is_tradable_description(descriptions@[i as int]));
            assert(description_key(descriptions@[i as int]) =~= asset_key(*a));
            return true;
        }
        i = i + 1;
    }
    false
}

/// Prunes a fetched inventory down to its tradable content: keeps exactly
/// the descriptions marked tradable, keeps exactly the assets whose class
/// some tradable description names, and restates the inventory count as the
/// number of kept assets. Everything else rides through unchanged.
pub fn keep_only_tradable(inv: Inventory) -> (r: Inventory)
    requires
        inv.assets@.len() <= u32::MAX,
    ensures
        r.descriptions@ == filtered(
            inv.descriptions@,
            |d: InventoryDescription| d.tradable == Some(1usize),
        ),
        r.assets@ == filtered(inv.assets@, |a: InventoryAsset| asset_kept(a, inv.descriptions@)),
        r.total_inventory_count == Some(r.assets@.len() as u32),
        r.asset_properties@ == inv.asset_properties@,
        r.success == inv.success,
        r.rwgrsn == inv.rwgrsn,
{
    let Inventory { assets, descriptions, asset_properties, total_inventory_count: _, success, rwgrsn } = inv;
    let ghost all_descriptions = descriptions@;
    let ghost all_assets = assets@;

    let mut kept_assets: Vec<InventoryAsset> = Vec::new();
    let mut remaining = assets;
    proof {
        assert(all_assets.take(0) =~= Seq::<InventoryAsset>::empty());
    }
    let total = remaining.len();
    let mut i: usize = 0;
    while i < total
        invariant
            total == all_assets.len(),
            0 <= i <= total,
            remaining@ == all_assets.skip(i as int),
            all_descriptions == descriptions@,
            kept_assets@ == filtered(
                all_assets.take(i as int),
                |a: InventoryAsset| asset_kept(a, all_descriptions),
            ),
        decreases total - i,
    {
        proof {
            assert(all_assets.take(i + 1).drop_last() =~= all_assets.take(i as int));
            assert(all_assets.take(i + 1).last() == all_assets[i as int]);
            assert(remaining@[0] == all_assets[i as int]);
        }
        let a = remaining.remove(0);
        proof {
            assert(remaining@ =~= all_assets.skip(i + 1));
        }
        if find_tradable_description(&descriptions, &a) {
            kept_assets.push(a);
        }
        proof {
            assert(kept_assets@ =~= filtered(
                all_assets.take(i + 1),
                |a: InventoryAsset| asset_kept(a, all_descriptions),
            ));
        }
        i = i + 1;
    }
    proof {
        assert(all_assets.take(total as int) =~= all_assets);
    }

    let mut kept_descriptions: Vec<InventoryDescription> = Vec::new();
    let mut remaining_d = descriptions;
    proof {
        assert(all_descriptions.take(0) =~= Seq::<InventoryDescription>::empty());
    }
    let total_d = remaining_d.len();
    let mut j: usize = 0;
    while j < total_d
        invariant
            total_d == all_descriptions.len(),
            0 <= j <= total_d,
            remaining_d@ == all_descriptions.skip(j as int),
            kept_descriptions@ == filtered(
                all_descriptions.take(j as int),
                |d: InventoryDescription| d.tradable == Some(1usize),
            ),
        decreases total_d - j,
    {
        proof {
            assert(all_descriptions.take(j + 1).drop_last() =~= all_descriptions.take(j as int));
            assert(all_descriptions.take(j + 1).last() == all_descriptions[j as int]);
            assert(remaining_d@[0] == all_descriptions[j as int]);
        }
        let d = remaining_d.remove(0);
        proof {
            assert(remaining_d@ =~= all_descriptions.skip(j + 1));
        }
        let tradable = match &d.tradable {
            Some(t) => *t == 1,
            None => false,
        };
        if tradable {
            kept_descriptions.push(d);
        }
        proof {
            assert(kept_descriptions@ =~= filtered(
                all_descriptions.take(j + 1),
                |d: InventoryDescription| d.tradable == Some(1usize),
            ));
        }
        j = j + 1;
    }
    proof {
        assert(all_descriptions.take(total_d as int) =~= all_descriptions);
        lemma_filtered_len(all_assets, |a: InventoryAsset| asset_kept(a, all_descriptions));
    }

    let count = kept_assets.len() as u32;
    Inventory {
        assets: kept_assets,
        descriptions: kept_descriptions,
        asset_properties,
        total_inventory_count: Some(count),
        success,
        rwgrsn,
    }
}

/// The inventory context an app id maps to when an inventory is fetched.
pub fn context_for_app(appid: &String) -> (r: String)
    ensures
        appid@ == "753"@ ==> r@ == "6"@,
        appid@ != "753"@ ==> r@ == "2"@,
{
    if *appid == "753".to_owned() {
        "6".to_owned()
    } else {
        "2".to_owned()
    }
}

} // verus!
