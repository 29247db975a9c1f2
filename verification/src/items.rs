//! Items of an offer round and the order-independent, full-field comparison
//! the check-to-pay guard runs between a claimed item list and the ledger.

use vstd::prelude::*;

verus! {

use vstd::multiset::Multiset;

broadcast use vstd::seq_lib::group_to_multiset_ensures;

/// One proposed item of a round. Identity for diffing is `asset_id` alone; a
/// change of any other field on the same `asset_id` counts as an update, not
/// a new item. `price` is in minor currency units; `None` stands for the
/// wire format's absent-price marker.
pub struct OfferItem {
    pub asset_id: String,
    pub context_id: String,
    pub app_id: String,
    pub name: String,
    pub price: Option<u64>,
    pub link: String,
    pub image: String,
}

/// The mathematical value of an item: every field, by content.
#[verifier::ext_equal]
pub struct ItemView {
    pub asset_id: Seq<char>,
    pub context_id: Seq<char>,
    pub app_id: Seq<char>,
    pub name: Seq<char>,
    pub price: Option<u64>,
    pub link: Seq<char>,
    pub image: Seq<char>,
}

impl View for OfferItem {
    type V = ItemView;

    open spec fn view(&self) -> ItemView {
        ItemView {
            asset_id: self.asset_id@,
            context_id: self.context_id@,
            app_id: self.app_id@,
            name: self.name@,
            price: self.price,
            link: self.link@,
            image: self.image@,
        }
    }
}

/// The views of a list of items, in order.
pub open spec fn views(items: Seq<OfferItem>) -> Seq<ItemView> {
    items.map_values(|it: OfferItem| it@)
}

pub fn opt_u64_eq(a: &Option<u64>, b: &Option<u64>) -> (r: bool)
    ensures
        r == (a == b),
{
    match (a, b) {
        (None, None) => true,
        (Some(x), Some(y)) => x == y,
        _ => false,
    }
}

impl PartialEq for OfferItem {
    fn eq(&self, other: &Self) -> (r: bool) {
        let r = self.asset_id == other.asset_id && self.context_id == other.context_id
            && self.app_id == other.app_id && self.name == other.name && opt_u64_eq(
            &self.price,
            &other.price,
        ) && self.link == other.link && self.image == other.image;
        proof {
            if r {
                assert(self@ =~= other@);
            }
        }
        r
    }
}

impl vstd::std_specs::cmp::PartialEqSpecImpl for OfferItem {
    open spec fn obeys_eq_spec() -> bool {
        true
    }

    open spec fn eq_spec(&self, other: &Self) -> bool {
        self@ == other@
    }
}

impl OfferItem {
    /// A fresh item equal to this one.
    pub fn duplicate(&self) -> (r: Self)
        ensures
            r@ == self@,
    {
        OfferItem {
            asset_id: self.asset_id.clone(),
            context_id: self.context_id.clone(),
            app_id: self.app_id.clone(),
            name: self.name.clone(),
            price: match &self.price {
                Some(p) => Some(*p),
                None => None,
            },
            link: self.link.clone(),
            image: self.image.clone(),
        }
    }
}

/// A fresh list of items with the same views, in the same order.
pub fn clone_items(items: &Vec<OfferItem>) -> (r: Vec<OfferItem>)
    ensures
        views(r@) == views(items@),
{
    let n = items.len();
    let mut r: Vec<OfferItem> = Vec::new();
    let mut i: usize = 0;
    while i < n
        invariant
            n == items@.len(),
            0 <= i <= n,
            r@.len() == i,
            forall|k: int| 0 <= k < i ==> (#[trigger] r@[k])@ == items@[k]@,
        decreases n - i,
    {
        r.push(items[i].duplicate());
        i = i + 1;
    }
    assert(views(r@) =~= views(items@));
    r
}

/// How many entries of `s` equal `x`.
pub open spec fn occurrences(s: Seq<ItemView>, x: ItemView) -> nat
    decreases s.len(),
{
    if s.len() == 0 {
        0
    } else {
        occurrences(s.drop_last(), x) + (if s.last() == x {
            1nat
        } else {
            0nat
        })
    }
}

pub proof fn lemma_occurrences_positive(s: Seq<ItemView>, x: ItemView)
    ensures
        occurrences(s, x) > 0 <==> s.contains(x),
    decreases s.len(),
{
    if s.len() > 0 {
        lemma_occurrences_positive(s.drop_last(), x);
        if s.last() == x {
            assert(s.contains(x));
        } else if s.drop_last().contains(x) {
            let i = choose|i: int| 0 <= i < s.drop_last().len() && s.drop_last()[i] == x;
            assert(s[i] == x);
        } else if s.contains(x) {
            let i = choose|i: int| 0 <= i < s.len() && s[i] == x;
            assert(i < s.len() - 1 ==> s.drop_last()[i] == x);
        }
    }
}

/// Counting occurrences is exactly counting in the multiset of the sequence.
pub proof fn lemma_occurrences_is_multiset_count(s: Seq<ItemView>, x: ItemView)
    ensures
        occurrences(s, x) == s.to_multiset().count(x),
    decreases s.len(),
{
    broadcast use vstd::multiset::group_multiset_axioms;

    if s.len() == 0 {
        assert(s.to_multiset() =~= Multiset::<ItemView>::empty());
    } else {
        lemma_occurrences_is_multiset_count(s.drop_last(), x);
        assert(s == s.drop_last().push(s.last()));
        assert(s.to_multiset() =~= s.drop_last().to_multiset().insert(s.last()));
    }
}

/// Two item lists hold the same items, by full field comparison, regardless
/// of order and with multiplicity.
pub open spec fn items_match(a: Seq<ItemView>, b: Seq<ItemView>) -> bool {
    forall|x: ItemView|
        #![trigger occurrences(a, x)]
        #![trigger occurrences(b, x)]
        occurrences(a, x) == occurrences(b, x)
}

/// Order-independent matching is exactly multiset equality of the views: in
/// particular any reordering of the same items still compares equal.
pub proof fn lemma_items_match_is_multiset_eq(a: Seq<ItemView>, b: Seq<ItemView>)
    ensures
        items_match(a, b) <==> a.to_multiset() == b.to_multiset(),
{
    if items_match(a, b) {
        assert forall|x: ItemView| a.to_multiset().count(x) == b.to_multiset().count(x) by {
            lemma_occurrences_is_multiset_count(a, x);
            lemma_occurrences_is_multiset_count(b, x);
        }
        assert(a.to_multiset() =~= b.to_multiset());
    }
    if a.to_multiset() == b.to_multiset() {
        assert forall|x: ItemView| #[trigger] occurrences(a, x) == occurrences(b, x) by {
            lemma_occurrences_is_multiset_count(a, x);
            lemma_occurrences_is_multiset_count(b, x);
        }
    }
}

/// How many items of `items` compare equal to `x`, field for field.
pub fn count_occurrences(items: &Vec<OfferItem>, x: &OfferItem) -> (c: usize)
    ensures
        c == occurrences(views(items@), x@),
{
    let n = items.len();
    let mut c: usize = 0;
    let mut i: usize = 0;
    while i < n
        invariant
            n == items@.len(),
            0 <= i <= n,
            c == occurrences(views(items@).take(i as int), x@),
            c <= i,
        decreases n - i,
    {
        proof {
            let v = views(items@);
            assert(v.take(i + 1).drop_last() =~= v.take(i as int));
            assert(v.take(i + 1).last() == v[i as int]);
        }
        if items[i] == *x {
            c = c + 1;
        }
        i = i + 1;
    }
    proof {
        assert(views(items@).take(n as int) =~= views(items@));
    }
    c
}

/// Whether the two lists hold the same items by full field comparison,
/// regardless of order: the sole tamper guard between a negotiated state and
/// money movement.
pub fn items_match_exec(a: &Vec<OfferItem>, b: &Vec<OfferItem>) -> (r: bool)
    ensures
        r == items_match(views(a@), views(b@)),
{
    let ghost va = views(a@);
    let ghost vb = views(b@);
    let n = a.len();
    let mut i: usize = 0;
    while i < n
        invariant
            n == a@.len(),
            0 <= i <= n,
            va == views(a@),
            vb == views(b@),
            forall|k: int| 0 <= k < i ==> occurrences(va, (#[trigger] va[k])) == occurrences(vb, va[k]),
        decreases n - i,
    {
        let ca = count_occurrences(a, &a[i]);
        let cb = count_occurrences(b, &a[i]);
        if ca != cb {
            proof {
                assert(occurrences(va, va[i as int]) != occurrences(vb, va[i as int]));
            }
            return false;
        }
        i = i + 1;
    }
    let m = b.len();
    let mut j: usize = 0;
    while j < m
        invariant
            m == b@.len(),
            va == views(a@),
            vb == views(b@),
            0 <= j <= m,
            forall|k: int| 0 <= k < va.len() ==> occurrences(va, (#[trigger] va[k])) == occurrences(
                vb,
                va[k],
            ),
            forall|k: int| 0 <= k < j ==> occurrences(va, (#[trigger] vb[k])) == occurrences(vb, vb[k]),
        decreases m - j,
    {
        let ca = count_occurrences(a, &b[j]);
        let cb = count_occurrences(b, &b[j]);
        if ca != cb {
            proof {
                assert(occurrences(va, vb[j as int]) != occurrences(vb, vb[j as int]));
            }
            return false;
        }
        j = j + 1;
    }
    proof {
        assert forall|x: ItemView| #[trigger] occurrences(va, x) == occurrences(vb, x) by {
            lemma_occurrences_positive(va, x);
            lemma_occurrences_positive(vb, x);
            if va.contains(x) {
                let k = choose|k: int| 0 <= k < va.len() && va[k] == x;
                assert(occurrences(va, va[k]) == occurrences(vb, va[k]));
            } else if vb.contains(x) {
                let k = choose|k: int| 0 <= k < vb.len() && vb[k] == x;
                assert(occurrences(va, vb[k]) == occurrences(vb, vb[k]));
            }
        }
    }
    true
}

} // verus!
