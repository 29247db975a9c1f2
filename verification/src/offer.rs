//! The offer negotiation engine: a persistent, round-numbered ledger of
//! proposed item sets per offer, the diff between successive rounds, the
//! status state machine, and the check-to-pay guard that validates a final
//! proposal against the last persisted round before any payment.

use vstd::prelude::*;

use crate::items::{
    clone_items, items_match, items_match_exec, opt_u64_eq, views, ItemView, OfferItem,
};
use crate::seqs::{filtered, lemma_filtered_contains};

verus! {

/// The lifecycle of an offer. Terminal states are `Success` or an abandoned
/// `InProcess`.
#[derive(Clone, Copy, Debug, PartialEq, Eq, Structural)]
pub enum OfferStatus {
    InProcess,
    Accepted,
    PayProcess,
    Success,
}

/// Why the engine refused an operation.
#[derive(Clone, Copy, Debug, PartialEq, Eq, Structural)]
pub enum OfferError {
    /// The proposed offer id is already taken.
    DuplicateOfferId,
    /// Every candidate id collided with an existing offer.
    NoFreshOfferId,
    /// No offer with the given id exists.
    UnknownOffer,
}

/// One persistent offer: header fields plus the append-only ledger of full
/// round snapshots. `rounds[r]` is the complete item set proposed at round
/// `r`; round 0 is the sentinel empty round inserted at creation, and the
/// current proposal is the maximum round. Offers are never deleted.
pub struct Offer {
    pub offer_id: String,
    pub buyer_steamid: String,
    pub trader_steamid: String,
    /// Aggregate price of the current round, in minor units.
    pub price: u128,
    /// Cardinality of the current round.
    pub count: usize,
    pub accepted: bool,
    pub paid: bool,
    pub status: OfferStatus,
    pub created: u64,
    pub last_update: u64,
    pub rounds: Vec<Vec<OfferItem>>,
}

impl Offer {
    /// The sentinel round exists and is empty.
    pub open spec fn wf(self) -> bool {
        self.rounds@.len() >= 1 && self.rounds@[0]@.len() == 0
    }

    /// The number of the maximum (current) round.
    pub open spec fn max_round(self) -> int {
        self.rounds@.len() - 1
    }

    /// The current proposal: the snapshot of the maximum round.
    pub open spec fn current_round(self) -> Seq<ItemView> {
        views(self.rounds@.last()@)
    }
}

/// The ledger of an offer as numbered rows: one `(round, snapshot)` pair per
/// persisted round.
pub open spec fn ledger_rows(o: Offer) -> Seq<(int, Seq<ItemView>)> {
    Seq::new(o.rounds@.len(), |r: int| (r, views(o.rounds@[r]@)))
}

/// Round numbers of an offer are strictly increasing with no gaps, starting
/// at the sentinel empty round 0; the current proposal is the maximum round.
/// `OfferStore::update_offer` only ever appends the next number, so this
/// holds across every mutation.
pub proof fn lemma_rounds_contiguous(o: Offer)
    requires
        o.wf(),
    ensures
        ledger_rows(o).len() >= 1,
        ledger_rows(o)[0].0 == 0,
        ledger_rows(o)[0].1.len() == 0,
        forall|r: int| 0 <= r < ledger_rows(o).len() ==> (#[trigger] ledger_rows(o)[r]).0 == r,
        forall|r: int|
            1 <= r < ledger_rows(o).len() ==> (#[trigger] ledger_rows(o)[r]).0 == ledger_rows(o)[
                r - 1
            ].0 + 1,
        ledger_rows(o).last().0 == o.max_round(),
        ledger_rows(o).last().1 == o.current_round(),
{
    assert(ledger_rows(o)[0].1 =~= views(o.rounds@[0]@));
    assert(views(o.rounds@[0]@).len() == 0);
}

/// The first item of `prev` carrying `aid` as its asset id, if any: the row
/// a submitted item is classified against.
pub open spec fn prev_lookup(prev: Seq<ItemView>, aid: Seq<char>) -> Option<ItemView>
    decreases prev.len(),
{
    if prev.len() == 0 {
        None
    } else if prev[0].asset_id == aid {
        Some(prev[0])
    } else {
        prev_lookup(prev.drop_first(), aid)
    }
}

/// Some item of `items` carries `aid` as its asset id.
pub open spec fn contains_asset(items: Seq<ItemView>, aid: Seq<char>) -> bool {
    exists|i: int| 0 <= i < items.len() && (#[trigger] items[i]).asset_id == aid
}

/// The submitted item has no row with its asset id in the previous round.
pub open spec fn is_added(it: ItemView, prev: Seq<ItemView>) -> bool {
    prev_lookup(prev, it.asset_id) is None
}

/// The submitted item has a previous row with its asset id but another
/// price.
pub open spec fn is_updated(it: ItemView, prev: Seq<ItemView>) -> bool {
    match prev_lookup(prev, it.asset_id) {
        Some(p) => p.price != it.price,
        None => false,
    }
}

/// The submitted item has a previous row with its asset id and the same
/// price.
pub open spec fn is_unchanged(it: ItemView, prev: Seq<ItemView>) -> bool {
    match prev_lookup(prev, it.asset_id) {
        Some(p) => p.price == it.price,
        None => false,
    }
}

/// The previous item was dropped from the new list and had a real price —
/// an item whose previous price is the absent marker is not reported.
pub open spec fn is_removed(p: ItemView, new_items: Seq<ItemView>) -> bool {
    !contains_asset(new_items, p.asset_id) && p.price is Some
}

/// The classes a submitted item falls in.
pub open spec fn added_of(nv: Seq<ItemView>, prev: Seq<ItemView>) -> Seq<ItemView> {
    filtered(nv, |it: ItemView| is_added(it, prev))
}

pub open spec fn updated_of(nv: Seq<ItemView>, prev: Seq<ItemView>) -> Seq<ItemView> {
    filtered(nv, |it: ItemView| is_updated(it, prev))
}

pub open spec fn removed_of(prev: Seq<ItemView>, nv: Seq<ItemView>) -> Seq<ItemView> {
    filtered(prev, |p: ItemView| is_removed(p, nv))
}

/// Diff classification is exhaustive and mutually exclusive: every item of a
/// submitted round falls in exactly one of added, updated, unchanged.
pub proof fn lemma_diff_partition(it: ItemView, prev: Seq<ItemView>)
    ensures
        is_added(it, prev) || is_updated(it, prev) || is_unchanged(it, prev),
        !(is_added(it, prev) && is_updated(it, prev)),
        !(is_added(it, prev) && is_unchanged(it, prev)),
        !(is_updated(it, prev) && is_unchanged(it, prev)),
{
}

/// Every item dropped from the previous round with a real price appears in
/// the removed class, and nothing else does.
pub proof fn lemma_removed_exact(prev: Seq<ItemView>, nv: Seq<ItemView>)
    ensures
        forall|p: ItemView| #[trigger]
            removed_of(prev, nv).contains(p) <==> prev.contains(p) && is_removed(p, nv),
{
    lemma_filtered_contains(prev, |p: ItemView| is_removed(p, nv));
}

/// Every submitted item with no previous row appears in the added class and
/// nothing else does; likewise for updated items.
pub proof fn lemma_added_updated_exact(nv: Seq<ItemView>, prev: Seq<ItemView>)
    ensures
        forall|x: ItemView| #[trigger]
            added_of(nv, prev).contains(x) <==> nv.contains(x) && is_added(x, prev),
        forall|x: ItemView| #[trigger]
            updated_of(nv, prev).contains(x) <==> nv.contains(x) && is_updated(x, prev),
{
    lemma_filtered_contains(nv, |it: ItemView| is_added(it, prev));
    lemma_filtered_contains(nv, |it: ItemView| is_updated(it, prev));
}

/// The price an item contributes to the aggregate; the absent marker counts
/// as zero.
pub open spec fn price_val(it: ItemView) -> int {
    match it.price {
        Some(p) => p as int,
        None => 0,
    }
}

/// The aggregate price of a round.
pub open spec fn sum_prices(s: Seq<ItemView>) -> int
    decreases s.len(),
{
    if s.len() == 0 {
        0
    } else {
        sum_prices(s.drop_last()) + price_val(s.last())
    }
}

pub proof fn lemma_sum_prices_bound(s: Seq<ItemView>)
    ensures
        0 <= sum_prices(s) <= s.len() * (u64::MAX as int),
    decreases s.len(),
{
    if s.len() > 0 {
        lemma_sum_prices_bound(s.drop_last());
    }
}

/// Whether `c` is a decimal digit, by code point.
pub open spec fn is_digit(c: char) -> bool {
    48 <= c as int <= 57
}

/// Whether `s` is one or more decimal digits.
pub open spec fn is_dec_digits(s: Seq<char>) -> bool {
    s.len() > 0 && forall|i: int| 0 <= i < s.len() ==> is_digit(#[trigger] s[i])
}

/// The number the digits of `s` spell.
pub open spec fn dec_val(s: Seq<char>) -> int
    decreases s.len(),
{
    if s.len() == 0 {
        0
    } else {
        dec_val(s.drop_last()) * 10 + (s.last() as int - 48)
    }
}

/// The `u32` that `s` spells in decimal, if it is all digits and fits.
pub open spec fn u32_of_dec(s: Seq<char>) -> Option<u32> {
    if is_dec_digits(s) && dec_val(s) <= u32::MAX as int {
        Some(dec_val(s) as u32)
    } else {
        None
    }
}

proof fn lemma_dec_val_nonneg(s: Seq<char>)
    requires
        forall|i: int| 0 <= i < s.len() ==> is_digit(#[trigger] s[i]),
    ensures
        dec_val(s) >= 0,
    decreases s.len(),
{
    if s.len() > 0 {
        lemma_dec_val_nonneg(s.drop_last());
    }
}

/// Appending digits never shrinks the spelled number.
proof fn lemma_dec_val_prefix(s: Seq<char>, k: int)
    requires
        0 <= k <= s.len(),
        forall|i: int| 0 <= i < s.len() ==> is_digit(#[trigger] s[i]),
    ensures
        dec_val(s) >= dec_val(s.take(k)),
    decreases s.len() - k,
{
    if k == s.len() {
        assert(s.take(k) =~= s);
    } else {
        lemma_dec_val_prefix(s, k + 1);
        assert(s.take(k + 1).drop_last() =~= s.take(k));
        assert(s.take(k + 1).last() == s[k]);
        assert(forall|i: int| 0 <= i < s.take(k).len() ==> is_digit(#[trigger] s.take(k)[i]));
        lemma_dec_val_nonneg(s.take(k));
        assert(dec_val(s.take(k + 1)) == dec_val(s.take(k)) * 10 + (s[k] as int - 48));
        assert(dec_val(s.take(k)) * 10 >= dec_val(s.take(k))) by (nonlinear_arith)
            requires
                dec_val(s.take(k)) >= 0,
        ;
    }
}

/// Parses a decimal `u32`, reporting exactly the strings of one or more
/// digits whose value fits.
pub fn parse_u32(s: &str) -> (r: Option<u32>)
    ensures
        r == u32_of_dec(s@),
{
    let n = s.unicode_len();
    if n == 0 {
        return None;
    }
    let mut acc: u32 = 0;
    let mut i: usize = 0;
    proof {
        assert(s@.take(0) =~= Seq::<char>::empty());
    }
    while i < n
        invariant
            n == s@.len(),
            0 < n,
            0 <= i <= n,
            forall|k: int| 0 <= k < i ==> is_digit(#[trigger] s@[k]),
            acc == dec_val(s@.take(i as int)),
        decreases n - i,
    {
        proof {
            assert(s@.take(i + 1).drop_last() =~= s@.take(i as int));
            assert(s@.take(i + 1).last() == s@[i as int]);
        }
        let c = s.get_char(i);
        let code = c as u32;
        if code < 48 || code > 57 {
            assert(!is_digit(s@[i as int]));
            return None;
        }
        let d = code - 48;
        if acc > (u32::MAX - d) / 10 {
            proof {
                let q = ((u32::MAX - d) / 10) as int;
                assert(dec_val(s@.take(i + 1)) == acc * 10 + d);
                assert(acc * 10 >= (q + 1) * 10) by (nonlinear_arith)
                    requires
                        acc >= q + 1,
                ;
                assert(dec_val(s@.take(i + 1)) > u32::MAX as int);
                if is_dec_digits(s@) {
                    lemma_dec_val_prefix(s@, i + 1);
                }
            }
            return None;
        }
        proof {
            let q = ((u32::MAX - d) / 10) as int;
            assert(acc * 10 <= q * 10) by (nonlinear_arith)
                requires
                    0 <= acc <= q,
            ;
        }
        acc = acc * 10 + d;
        i = i + 1;
    }
    proof {
        assert(s@.take(n as int) =~= s@);
        lemma_dec_val_nonneg(s@);
    }
    Some(acc)
}

/// The check-to-pay guard authorizes: the offer exists and the submitted
/// views match its current round, order-independently and field for field.
pub open spec fn items_match_holds(store: OfferStore, oid: Seq<char>, submitted: Seq<ItemView>) -> bool {
    store.has_offer(oid) && items_match(submitted, store.offer_at(oid).current_round())
}

/// What a status update sets `status`, `accepted` and `paid` to; `None` for
/// an unrecognized incoming status, which leaves the offer unchanged.
pub open spec fn status_effect(s: Seq<char>) -> Option<(OfferStatus, bool, bool)> {
    if s == "ACCEPTED"@ {
        Some((OfferStatus::Accepted, true, false))
    } else if s == "IN PROCESS"@ {
        Some((OfferStatus::InProcess, false, false))
    } else if s == "PAY PROCESS"@ {
        Some((OfferStatus::PayProcess, true, true))
    } else if s == "SUCCESS"@ {
        Some((OfferStatus::Success, true, true))
    } else {
        None
    }
}

/// The first row of `prev` carrying `aid` as its asset id, if any.
fn find_prev<'a>(prev: &'a Vec<OfferItem>, aid: &String) -> (r: Option<&'a OfferItem>)
    ensures
        r is Some <==> prev_lookup(views(prev@), aid@) is Some,
        r matches Some(p) ==> p@ == prev_lookup(views(prev@), aid@).unwrap(),
{
    let ghost v = views(prev@);
    proof {
        assert(v.skip(0) =~= v);
    }
    let n = prev.len();
    let mut i: usize = 0;
    while i < n
        invariant
            n == prev@.len(),
            0 <= i <= n,
            v == views(prev@),
            prev_lookup(v, aid@) == prev_lookup(v.skip(i as int), aid@),
        decreases n - i,
    {
        proof {
            assert(v.skip(i as int)[0] == v[i as int]);
            assert(v.skip(i as int).drop_first() =~= v.skip(i + 1));
            assert(v[i as int] == prev@[i as int]@);
        }
        if prev[i].asset_id == *aid {
            assert(prev_lookup(v.skip(i as int), aid@) == Some(v[i as int]));
            return Some(&prev[i]);
        }
        i = i + 1;
    }
    proof {
        assert(v.skip(n as int) =~= Seq::<ItemView>::empty());
    }
    None
}

/// Whether some item of `items` carries `aid` as its asset id.
fn contains_asset_exec(items: &Vec<OfferItem>, aid: &String) -> (r: bool)
    ensures
        r == contains_asset(views(items@), aid@),
{
    let n = items.len();
    let mut i: usize = 0;
    while i < n
        invariant
            n == items@.len(),
            0 <= i <= n,
            forall|k: int| 0 <= k < i ==> (#[trigger] views(items@)[k]).asset_id != aid@,
        decreases n - i,
    {
        proof {
            assert(views(items@)[i as int] == items@[i as int]@);
        }
        if items[i].asset_id == *aid {
            assert(contains_asset(views(items@), aid@));
            return true;
        }
        i = i + 1;
    }
    false
}

/// The positive outcome of a check-to-pay: the authorized item list and the
/// counterpart's trade URL, or a normal negative result with both empty.
pub struct OfferCheckResult {
    pub offer_id: String,
    pub check_result: bool,
    pub offer_items: Vec<OfferItem>,
    pub partner_trade_url: String,
}

/// What a round append returns: the recomputed aggregates and the diff of
/// the new round against the previous one.
pub struct OfferContentUpdated {
    pub offer_id: String,
    pub total_price: u128,
    pub total_count: usize,
    pub new_items: Vec<OfferItem>,
    pub added_items: Vec<OfferItem>,
    pub removed_items: Vec<OfferItem>,
    pub updated_items: Vec<OfferItem>,
}

/// `o` is the record `insert_offer` creates.
pub open spec fn is_fresh_offer(
    o: Offer,
    buyer: Seq<char>,
    trader: Seq<char>,
    oid: Seq<char>,
    now: u64,
) -> bool {
    &&& o.offer_id@ == oid
    &&& o.buyer_steamid@ == buyer
    &&& o.trader_steamid@ == trader
    &&& o.price == 0
    &&& o.count == 0
    &&& !o.accepted
    &&& !o.paid
    &&& o.status == OfferStatus::InProcess
    &&& o.created == now
    &&& o.last_update == now
    &&& o.rounds@.len() == 1
    &&& o.rounds@[0]@.len() == 0
}

/// The persistence layer of the negotiation engine: the offer ledger and the
/// per-account trade URLs the check-to-pay reads.
pub struct OfferStore {
    pub offers: Vec<Offer>,
    pub trade_urls: Vec<(String, String)>,
}

impl OfferStore {
    pub open spec fn wf(self) -> bool {
        &&& forall|i: int, j: int|
            0 <= i < self.offers@.len() && 0 <= j < self.offers@.len() && i != j
                ==> (#[trigger] self.offers@[i]).offer_id@ != (#[trigger] self.offers@[j]).offer_id@
        &&& forall|i: int| 0 <= i < self.offers@.len() ==> (#[trigger] self.offers@[i]).wf()
        &&& forall|i: int, j: int|
            0 <= i < self.trade_urls@.len() && 0 <= j < self.trade_urls@.len() && i != j
                ==> (#[trigger] self.trade_urls@[i]).0@ != (#[trigger] self.trade_urls@[j]).0@
    }

    pub open spec fn has_offer(self, oid: Seq<char>) -> bool {
        exists|i: int| 0 <= i < self.offers@.len() && (#[trigger] self.offers@[i]).offer_id@ == oid
    }

    pub open spec fn offer_index(self, oid: Seq<char>) -> int {
        choose|i: int| 0 <= i < self.offers@.len() && (#[trigger] self.offers@[i]).offer_id@ == oid
    }

    pub open spec fn offer_at(self, oid: Seq<char>) -> Offer {
        self.offers@[self.offer_index(oid)]
    }

    pub open spec fn has_trade_url(self, sid: Seq<char>) -> bool {
        exists|i: int|
            0 <= i < self.trade_urls@.len() && (#[trigger] self.trade_urls@[i]).0@ == sid
    }

    pub open spec fn trade_url_index(self, sid: Seq<char>) -> int {
        choose|i: int|
            0 <= i < self.trade_urls@.len() && (#[trigger] self.trade_urls@[i]).0@ == sid
    }

    /// The trade URL stored for `sid`, or the empty text when none is.
    pub open spec fn trade_url_of(self, sid: Seq<char>) -> Seq<char> {
        if self.has_trade_url(sid) {
            self.trade_urls@[self.trade_url_index(sid)].1@
        } else {
            Seq::empty()
        }
    }

    /// In a well-formed store the index of an offer is determined by its id.
    pub proof fn lemma_offer_index(self, oid: Seq<char>, i: int)
        requires
            self.wf(),
            0 <= i < self.offers@.len(),
            self.offers@[i].offer_id@ == oid,
        ensures
            self.has_offer(oid),
            self.offer_index(oid) == i,
    {
        assert(self.has_offer(oid));
        let j = self.offer_index(oid);
        if i != j {
            assert(self.offers@[i].offer_id@ != self.offers@[j].offer_id@);
        }
    }

    pub proof fn lemma_trade_url_index(self, sid: Seq<char>, i: int)
        requires
            self.wf(),
            0 <= i < self.trade_urls@.len(),
            self.trade_urls@[i].0@ == sid,
        ensures
            self.has_trade_url(sid),
            self.trade_url_index(sid) == i,
    {
        assert(self.has_trade_url(sid));
        let j = self.trade_url_index(sid);
        if i != j {
            assert(self.trade_urls@[i].0@ != self.trade_urls@[j].0@);
        }
    }

    /// Every offer other than `oid0` reads the same after a change confined
    /// to the entry at `i`, which carries `oid0` before and after.
    proof fn lemma_update_preserves_other_offers(pre: OfferStore, post: OfferStore, i: int, oid0: Seq<char>)
        requires
            pre.wf(),
            post.wf(),
            0 <= i < pre.offers@.len(),
            post.offers@.len() == pre.offers@.len(),
            forall|k: int|
                0 <= k < pre.offers@.len() && k != i ==> post.offers@[k] == pre.offers@[k],
            pre.offers@[i].offer_id@ == oid0,
            post.offers@[i].offer_id@ == oid0,
        ensures
            forall|oid: Seq<char>|
                oid != oid0 ==> ((post.has_offer(oid) <==> pre.has_offer(oid)) && (pre.has_offer(
                    oid,
                ) ==> post.offer_at(oid) == pre.offer_at(oid))),
    {
        assert forall|oid: Seq<char>| oid != oid0 implies ((post.has_offer(oid)
            <==> pre.has_offer(oid)) && (pre.has_offer(oid) ==> post.offer_at(oid) == pre.offer_at(
            oid,
        ))) by {
            if pre.has_offer(oid) {
                let j = pre.offer_index(oid);
                assert(pre.offers@[j].offer_id@ == oid);
                assert(j != i);
                assert(post.offers@[j] == pre.offers@[j]);
                post.lemma_offer_index(oid, j);
            }
            if post.has_offer(oid) {
                let j = post.offer_index(oid);
                assert(post.offers@[j].offer_id@ == oid);
                assert(j != i);
                assert(pre.offers@[j] == post.offers@[j]);
                pre.lemma_offer_index(oid, j);
            }
        }
    }

    /// Every offer other than `oid0` reads the same after an offer with id
    /// `oid0` was appended.
    proof fn lemma_push_preserves_other_offers(pre: OfferStore, post: OfferStore, oid0: Seq<char>)
        requires
            pre.wf(),
            post.wf(),
            post.offers@.len() == pre.offers@.len() + 1,
            forall|k: int| 0 <= k < pre.offers@.len() ==> post.offers@[k] == pre.offers@[k],
            post.offers@[pre.offers@.len() as int].offer_id@ == oid0,
        ensures
            forall|oid: Seq<char>|
                oid != oid0 ==> ((post.has_offer(oid) <==> pre.has_offer(oid)) && (pre.has_offer(
                    oid,
                ) ==> post.offer_at(oid) == pre.offer_at(oid))),
    {
        assert forall|oid: Seq<char>| oid != oid0 implies ((post.has_offer(oid)
            <==> pre.has_offer(oid)) && (pre.has_offer(oid) ==> post.offer_at(oid) == pre.offer_at(
            oid,
        ))) by {
            if pre.has_offer(oid) {
                let j = pre.offer_index(oid);
                assert(pre.offers@[j].offer_id@ == oid);
                assert(post.offers@[j] == pre.offers@[j]);
                post.lemma_offer_index(oid, j);
            }
            if post.has_offer(oid) {
                let j = post.offer_index(oid);
                assert(post.offers@[j].offer_id@ == oid);
                assert(j != pre.offers@.len() as int);
                assert(pre.offers@[j] == post.offers@[j]);
                pre.lemma_offer_index(oid, j);
            }
        }
    }

    pub fn new() -> (r: Self)
        ensures
            r.wf(),
            r.offers@.len() == 0,
            r.trade_urls@.len() == 0,
    {
        OfferStore { offers: Vec::new(), trade_urls: Vec::new() }
    }

    /// The position of the offer `offer_id` names, if it exists.
    fn find_offer(&self, offer_id: &String) -> (r: Option<usize>)
        requires
            self.wf(),
        ensures
            r is Some <==> self.has_offer(offer_id@),
            r is Some ==> {
                let i = r.unwrap() as int;
                &&& 0 <= i < self.offers@.len()
                &&& self.offers@[i].offer_id@ == offer_id@
                &&& i == self.offer_index(offer_id@)
            },
    {
        let n = self.offers.len();
        let mut i: usize = 0;
        while i < n
            invariant
                self.wf(),
                n == self.offers@.len(),
                0 <= i <= n,
                forall|k: int| 0 <= k < i ==> (#[trigger] self.offers@[k]).offer_id@ != offer_id@,
            decreases n - i,
        {
            if self.offers[i].offer_id == *offer_id {
                proof {
                    self.lemma_offer_index(offer_id@, i as int);
                }
                return Some(i);
            }
            i = i + 1;
        }
        assert(!self.has_offer(offer_id@));
        None
    }

    fn find_trade_url(&self, steam_id: &String) -> (r: Option<usize>)
        requires
            self.wf(),
        ensures
            r is Some <==> self.has_trade_url(steam_id@),
            r is Some ==> {
                let i = r.unwrap() as int;
                &&& 0 <= i < self.trade_urls@.len()
                &&& self.trade_urls@[i].0@ == steam_id@
                &&& i == self.trade_url_index(steam_id@)
            },
    {
        let n = self.trade_urls.len();
        let mut i: usize = 0;
        while i < n
            invariant
                self.wf(),
                n == self.trade_urls@.len(),
                0 <= i <= n,
                forall|k: int| 0 <= k < i ==> (#[trigger] self.trade_urls@[k]).0@ != steam_id@,
            decreases n - i,
        {
            if self.trade_urls[i].0 == *steam_id {
                proof {
                    self.lemma_trade_url_index(steam_id@, i as int);
                }
                return Some(i);
            }
            i = i + 1;
        }
        assert(!self.has_trade_url(steam_id@));
        None
    }

    /// Creates the offer record under `offer_id` with its sentinel empty
    /// round 0, or refuses a taken id leaving the store untouched.
    pub fn insert_offer(
        &mut self,
        buyer_steamid: String,
        trader_steamid: String,
        offer_id: String,
        now: u64,
    ) -> (r: Result<(), OfferError>)
        requires
            old(self).wf(),
        ensures
            final(self).wf(),
            final(self).trade_urls@ == old(self).trade_urls@,
            old(self).has_offer(offer_id@) ==> (r matches Err(OfferError::DuplicateOfferId))
                && final(self).offers@ == old(self).offers@,
            !old(self).has_offer(offer_id@) ==> r is Ok && final(self).offers@.len() == old(
                self,
            ).offers@.len() + 1 && final(self).offers@.drop_last() == old(self).offers@
                && is_fresh_offer(
                final(self).offers@.last(),
                buyer_steamid@,
                trader_steamid@,
                offer_id@,
                now,
            ) && final(self).has_offer(offer_id@),
    {
        if self.find_offer(&offer_id).is_some() {
            return Err(OfferError::DuplicateOfferId);
        }
        let ghost pre = *self;
        let mut rounds: Vec<Vec<OfferItem>> = Vec::new();
        rounds.push(Vec::new());
        let offer = Offer {
            offer_id,
            buyer_steamid,
            trader_steamid,
            price: 0,
            count: 0,
            accepted: false,
            paid: false,
            status: OfferStatus::InProcess,
            created: now,
            last_update: now,
            rounds,
        };
        self.offers.push(offer);
        proof {
            assert(self.offers@.drop_last() =~= pre.offers@);
            let n = pre.offers@.len() as int;
            assert forall|i: int, j: int|
                0 <= i < self.offers@.len() && 0 <= j < self.offers@.len() && i != j
                    implies (#[trigger] self.offers@[i]).offer_id@ != (
            #[trigger] self.offers@[j]).offer_id@ by {
                if i < n && j < n {
                } else if i < n {
                    assert(pre.offers@[i].offer_id@ != self.offers@[n].offer_id@);
                } else if j < n {
                    assert(pre.offers@[j].offer_id@ != self.offers@[n].offer_id@);
                }
            }
            self.lemma_offer_index(self.offers@[n].offer_id@, n);
        }
        Ok(())
    }

    /// Creates an offer under the first candidate id not already taken — the
    /// idempotent id-generation loop, retrying on collision — or reports
    /// that every candidate collided, leaving the store untouched.
    pub fn make_offer(
        &mut self,
        buyer_steamid: String,
        trader_steamid: String,
        candidates: Vec<String>,
        now: u64,
    ) -> (r: Result<String, OfferError>)
        requires
            old(self).wf(),
        ensures
            final(self).wf(),
            final(self).trade_urls@ == old(self).trade_urls@,
            r is Err ==> (r matches Err(OfferError::NoFreshOfferId)) && final(self).offers@ == old(
                self,
            ).offers@ && forall|k: int|
                0 <= k < candidates@.len() ==> old(self).has_offer((#[trigger] candidates@[k])@),
            r matches Ok(id) ==> ({
                &&& !old(self).has_offer(id@)
                &&& final(self).offers@.len() == old(self).offers@.len() + 1
                &&& final(self).offers@.drop_last() == old(self).offers@
                &&& is_fresh_offer(
                    final(self).offers@.last(),
                    buyer_steamid@,
                    trader_steamid@,
                    id@,
                    now,
                )
                &&& exists|j: int|
                    0 <= j < candidates@.len() && id@ == (#[trigger] candidates@[j])@ && (forall|
                        k: int,
                    |
                        0 <= k < j ==> old(self).has_offer((#[trigger] candidates@[k])@))
            }),
    {
        let n = candidates.len();
        let mut i: usize = 0;
        while i < n
            invariant
                self.wf(),
                *self == *old(self),
                n == candidates@.len(),
                0 <= i <= n,
                forall|k: int| 0 <= k < i ==> old(self).has_offer((#[trigger] candidates@[k])@),
            decreases n - i,
        {
            if self.find_offer(&candidates[i]).is_none() {
                let id = candidates[i].clone();
                let res = self.insert_offer(buyer_steamid, trader_steamid, id.clone(), now);
                match res {
                    Ok(()) => {
                        return Ok(id);
                    },
                    Err(e) => {
                        return Err(e);
                    },
                }
            }
            i = i + 1;
        }
        Err(OfferError::NoFreshOfferId)
    }

    /// Applies a status update to the offer: `ACCEPTED`, `IN PROCESS`,
    /// `PAY PROCESS` and `SUCCESS` set the status and the accepted/paid
    /// flags per the transition table; anything else leaves the offer
    /// unchanged. Returns whether the offer exists.
    pub fn update_status_offer(&mut self, offer_id: &String, status: &String, now: u64) -> (r:
        bool)
        requires
            old(self).wf(),
        ensures
            final(self).wf(),
            final(self).trade_urls@ == old(self).trade_urls@,
            r == old(self).has_offer(offer_id@),
            !old(self).has_offer(offer_id@) ==> final(self).offers@ == old(self).offers@,
            old(self).has_offer(offer_id@) ==> ({
                let pre = old(self).offer_at(offer_id@);
                let post = final(self).offer_at(offer_id@);
                &&& final(self).has_offer(offer_id@)
                &&& match status_effect(status@) {
                    Some((st, acc, paid)) => post == Offer {
                        status: st,
                        accepted: acc,
                        paid: paid,
                        last_update: now,
                        ..pre
                    },
                    None => post == pre,
                }
            }),
            forall|oid: Seq<char>|
                oid != offer_id@ ==> ((final(self).has_offer(oid) <==> old(self).has_offer(oid))
                    && (old(self).has_offer(oid) ==> final(self).offer_at(oid) == old(
                    self,
                ).offer_at(oid))),
    {
        match self.find_offer(offer_id) {
            None => false,
            Some(i) => {
                let ghost pre = *self;
                let mut offer = self.offers.remove(i);
                if *status == "ACCEPTED".to_owned() {
                    offer.status = OfferStatus::Accepted;
                    offer.accepted = true;
                    offer.paid = false;
                    offer.last_update = now;
                } else if *status == "IN PROCESS".to_owned() {
                    offer.status = OfferStatus::InProcess;
                    offer.accepted = false;
                    offer.paid = false;
                    offer.last_update = now;
                } else if *status == "PAY PROCESS".to_owned() {
                    offer.status = OfferStatus::PayProcess;
                    offer.accepted = true;
                    offer.paid = true;
                    offer.last_update = now;
                } else if *status == "SUCCESS".to_owned() {
                    offer.status = OfferStatus::Success;
                    offer.accepted = true;
                    offer.paid = true;
                    offer.last_update = now;
                }
                self.offers.insert(i, offer);
                proof {
                    assert(self.offers@ =~= pre.offers@.update(i as int, self.offers@[i as int]));
                    assert(self.wf());
                    self.lemma_offer_index(offer_id@, i as int);
                    pre.lemma_offer_index(offer_id@, i as int);
                    OfferStore::lemma_update_preserves_other_offers(pre, *self, i as int, offer_id@);
                }
                true
            },
        }
    }

    /// Stores (or replaces) the trade URL of an account.
    pub fn account_post_trade_url(&mut self, steam_id: String, trade_url: String)
        requires
            old(self).wf(),
        ensures
            final(self).wf(),
            final(self).offers@ == old(self).offers@,
            final(self).has_trade_url(steam_id@),
            final(self).trade_url_of(steam_id@) == trade_url@,
            forall|sid: Seq<char>|
                sid != steam_id@ ==> ((final(self).has_trade_url(sid) <==> old(
                    self,
                ).has_trade_url(sid)) && final(self).trade_url_of(sid) == old(self).trade_url_of(
                    sid,
                )),
    {
        let ghost pre = *self;
        match self.find_trade_url(&steam_id) {
            Some(i) => {
                self.trade_urls.set(i, (steam_id, trade_url));
                proof {
                    assert forall|a: int, b: int|
                        0 <= a < self.trade_urls@.len() && 0 <= b < self.trade_urls@.len() && a != b
                            implies (#[trigger] self.trade_urls@[a]).0@ != (
                    #[trigger] self.trade_urls@[b]).0@ by {
                        assert(pre.trade_urls@[a].0@ == self.trade_urls@[a].0@);
                        assert(pre.trade_urls@[b].0@ == self.trade_urls@[b].0@);
                    }
                    self.lemma_trade_url_index(self.trade_urls@[i as int].0@, i as int);
                    OfferStore::lemma_trade_urls_preserved(pre, *self, i as int);
                }
            },
            None => {
                let ghost n = self.trade_urls@.len() as int;
                self.trade_urls.push((steam_id, trade_url));
                proof {
                    assert forall|a: int, b: int|
                        0 <= a < self.trade_urls@.len() && 0 <= b < self.trade_urls@.len() && a != b
                            implies (#[trigger] self.trade_urls@[a]).0@ != (
                    #[trigger] self.trade_urls@[b]).0@ by {
                        if a < n && b < n {
                        } else if a < n {
                            assert(pre.trade_urls@[a].0@ != self.trade_urls@[n].0@);
                        } else if b < n {
                            assert(pre.trade_urls@[b].0@ != self.trade_urls@[n].0@);
                        }
                    }
                    self.lemma_trade_url_index(self.trade_urls@[n].0@, n);
                    assert forall|sid: Seq<char>| sid != self.trade_urls@[n].0@ implies ((
                    self.has_trade_url(sid) <==> pre.has_trade_url(sid)) && self.trade_url_of(sid)
                        == pre.trade_url_of(sid)) by {
                        if pre.has_trade_url(sid) {
                            let j = pre.trade_url_index(sid);
                            assert(pre.trade_urls@[j].0@ == sid);
                            assert(self.trade_urls@[j] == pre.trade_urls@[j]);
                            self.lemma_trade_url_index(sid, j);
                            pre.lemma_trade_url_index(sid, j);
                        }
                        if self.has_trade_url(sid) {
                            let j = self.trade_url_index(sid);
                            assert(self.trade_urls@[j].0@ == sid);
                            assert(j != n);
                            assert(pre.trade_urls@[j] == self.trade_urls@[j]);
                            pre.lemma_trade_url_index(sid, j);
                        }
                    }
                }
            },
        }
    }

    /// After a change confined to the entry at `i`, every other account's
    /// trade URL reads the same.
    proof fn lemma_trade_urls_preserved(pre: OfferStore, post: OfferStore, i: int)
        requires
            pre.wf(),
            post.wf(),
            0 <= i < pre.trade_urls@.len(),
            post.trade_urls@.len() == pre.trade_urls@.len(),
            forall|k: int|
                0 <= k < pre.trade_urls@.len() && k != i ==> post.trade_urls@[k]
                    == pre.trade_urls@[k],
            post.trade_urls@[i].0@ == pre.trade_urls@[i].0@,
        ensures
            forall|sid: Seq<char>|
                sid != pre.trade_urls@[i].0@ ==> ((post.has_trade_url(sid) <==> pre.has_trade_url(
                    sid,
                )) && post.trade_url_of(sid) == pre.trade_url_of(sid)),
    {
        assert forall|sid: Seq<char>| sid != pre.trade_urls@[i].0@ implies ((post.has_trade_url(
            sid,
        ) <==> pre.has_trade_url(sid)) && post.trade_url_of(sid) == pre.trade_url_of(sid)) by {
            if pre.has_trade_url(sid) {
                let j = pre.trade_url_index(sid);
                assert(pre.trade_urls@[j].0@ == sid);
                assert(j != i);
                assert(post.trade_urls@[j] == pre.trade_urls@[j]);
                post.lemma_trade_url_index(sid, j);
            }
            if post.has_trade_url(sid) {
                let j = post.trade_url_index(sid);
                assert(post.trade_urls@[j].0@ == sid);
                assert(j != i);
                assert(pre.trade_urls@[j] == post.trade_urls@[j]);
                pre.lemma_trade_url_index(sid, j);
            }
        }
    }

    /// Appends a client-submitted item list as the next round of the offer
    /// — the full snapshot is persisted, not a delta — recomputes the
    /// aggregate price and count from the new list, and returns the diff of
    /// the new round against the previous one: items with no previous row
    /// are added, items whose previous row has another price are updated,
    /// and previous items with a real price that were dropped are removed.
    pub fn update_offer(&mut self, offer_id: &String, new_items: Vec<OfferItem>, now: u64) -> (r:
        Result<OfferContentUpdated, OfferError>)
        requires
            old(self).wf(),
        ensures
            final(self).wf(),
            final(self).trade_urls@ == old(self).trade_urls@,
            !old(self).has_offer(offer_id@) ==> (r matches Err(OfferError::UnknownOffer))
                && final(self).offers@ == old(self).offers@,
            old(self).has_offer(offer_id@) ==> ({
                let pre = old(self).offer_at(offer_id@);
                let post = final(self).offer_at(offer_id@);
                let prev = pre.current_round();
                let nv = views(new_items@);
                &&& r is Ok
                &&& final(self).has_offer(offer_id@)
                &&& post.rounds@.len() == pre.rounds@.len() + 1
                &&& post.rounds@.drop_last() == pre.rounds@
                &&& views(post.rounds@.last()@) == nv
                &&& post.price == sum_prices(nv)
                &&& post.count == nv.len()
                &&& post.last_update == now
                &&& post.offer_id == pre.offer_id
                &&& post.buyer_steamid == pre.buyer_steamid
                &&& post.trader_steamid == pre.trader_steamid
                &&& post.accepted == pre.accepted
                &&& post.paid == pre.paid
                &&& post.status == pre.status
                &&& post.created == pre.created
                &&& ({
                    let res = r.unwrap();
                    &&& res.offer_id@ == offer_id@
                    &&& views(res.new_items@) == nv
                    &&& views(res.added_items@) == added_of(nv, prev)
                    &&& views(res.updated_items@) == updated_of(nv, prev)
                    &&& views(res.removed_items@) == removed_of(prev, nv)
                    &&& res.total_price == sum_prices(nv)
                    &&& res.total_count == nv.len()
                })
            }),
            forall|oid: Seq<char>|
                oid != offer_id@ ==> ((final(self).has_offer(oid) <==> old(self).has_offer(oid))
                    && (old(self).has_offer(oid) ==> final(self).offer_at(oid) == old(
                    self,
                ).offer_at(oid))),
    {
        let i = match self.find_offer(offer_id) {
            None => {
                return Err(OfferError::UnknownOffer);
            },
            Some(i) => i,
        };
        let ghost pre_store = *self;
        let mut offer = self.offers.remove(i);
        let last_idx = offer.rounds.len() - 1;
        let ghost nv = views(new_items@);
        let ghost prev = views(offer.rounds@[last_idx as int]@);
        proof {
            assert(offer.rounds@.last() == offer.rounds@[last_idx as int]);
        }
        let n = new_items.len();

        // Classify every submitted item against the previous round.
        let mut added: Vec<OfferItem> = Vec::new();
        let mut updated: Vec<OfferItem> = Vec::new();
        let mut idx: usize = 0;
        proof {
            assert(nv.take(0) =~= Seq::<ItemView>::empty());
        }
        while idx < n
            invariant
                n == new_items@.len(),
                0 <= idx <= n,
                nv == views(new_items@),
                prev == views(offer.rounds@[last_idx as int]@),
                last_idx < offer.rounds@.len(),
                views(added@) == added_of(nv.take(idx as int), prev),
                views(updated@) == updated_of(nv.take(idx as int), prev),
            decreases n - idx,
        {
            proof {
                assert(nv.take(idx + 1).drop_last() =~= nv.take(idx as int));
                assert(nv.take(idx + 1).last() == nv[idx as int]);
                assert(nv[idx as int] == new_items@[idx as int]@);
            }
            let it = &new_items[idx];
            match find_prev(&offer.rounds[last_idx], &it.asset_id) {
                None => {
                    assert(is_added(it@, prev));
                    added.push(it.duplicate());
                    proof {
                        assert(views(added@) =~= added_of(nv.take(idx + 1), prev));
                        assert(views(updated@) =~= updated_of(nv.take(idx + 1), prev));
                    }
                },
                Some(p) => {
                    assert(!is_added(it@, prev));
                    if !opt_u64_eq(&p.price, &it.price) {
                        assert(is_updated(it@, prev));
                        updated.push(it.duplicate());
                        proof {
                            assert(views(added@) =~= added_of(nv.take(idx + 1), prev));
                            assert(views(updated@) =~= updated_of(nv.take(idx + 1), prev));
                        }
                    } else {
                        assert(is_unchanged(it@, prev));
                        proof {
                            assert(views(added@) =~= added_of(nv.take(idx + 1), prev));
                            assert(views(updated@) =~= updated_of(nv.take(idx + 1), prev));
                        }
                    }
                },
            }
            idx = idx + 1;
        }
        proof {
            assert(nv.take(n as int) =~= nv);
        }

        // Collect the previous items the new list dropped.
        let mut removed: Vec<OfferItem> = Vec::new();
        let prev_len = offer.rounds[last_idx].len();
        let mut j: usize = 0;
        proof {
            assert(prev.take(0) =~= Seq::<ItemView>::empty());
        }
        while j < prev_len
            invariant
                prev_len == offer.rounds@[last_idx as int]@.len(),
                0 <= j <= prev_len,
                nv == views(new_items@),
                prev == views(offer.rounds@[last_idx as int]@),
                last_idx < offer.rounds@.len(),
                n == new_items@.len(),
                views(removed@) == removed_of(prev.take(j as int), nv),
            decreases prev_len - j,
        {
            proof {
                assert(prev.take(j + 1).drop_last() =~= prev.take(j as int));
                assert(prev.take(j + 1).last() == prev[j as int]);
                assert(prev[j as int] == offer.rounds@[last_idx as int]@[j as int]@);
            }
            let p = &offer.rounds[last_idx][j];
            let dropped = !contains_asset_exec(&new_items, &p.asset_id);
            let real_price = p.price.is_some();
            if dropped && real_price {
                assert(is_removed(p@, nv));
                removed.push(p.duplicate());
                proof {
                    assert(views(removed@) =~= removed_of(prev.take(j + 1), nv));
                }
            } else {
                assert(!is_removed(p@, nv));
                proof {
                    assert(views(removed@) =~= removed_of(prev.take(j + 1), nv));
                }
            }
            j = j + 1;
        }
        proof {
            assert(prev.take(prev_len as int) =~= prev);
        }

        // Recompute the aggregates from the new list.
        let mut total: u128 = 0;
        let mut k: usize = 0;
        proof {
            assert(nv.take(0) =~= Seq::<ItemView>::empty());
        }
        while k < n
            invariant
                n == new_items@.len(),
                0 <= k <= n,
                nv == views(new_items@),
                total == sum_prices(nv.take(k as int)),
            decreases n - k,
        {
            proof {
                assert(nv.take(k + 1).drop_last() =~= nv.take(k as int));
                assert(nv.take(k + 1).last() == nv[k as int]);
                assert(nv[k as int] == new_items@[k as int]@);
                lemma_sum_prices_bound(nv.take(k + 1));
                assert((k + 1) * (u64::MAX as int) < u128::MAX as int) by (nonlinear_arith)
                    requires
                        0 <= k + 1 <= u64::MAX as int,
                ;
            }
            let p: u64 = match &new_items[k].price {
                Some(p) => *p,
                None => 0,
            };
            total = total + (p as u128);
            k = k + 1;
        }
        proof {
            assert(nv.take(n as int) =~= nv);
        }

        // Persist the full snapshot as the next round and the aggregates.
        let snapshot = clone_items(&new_items);
        let ghost pre_offer = offer;
        offer.rounds.push(snapshot);
        offer.price = total;
        offer.count = n;
        offer.last_update = now;
        proof {
            assert(offer.rounds@.drop_last() =~= pre_offer.rounds@);
            assert(offer.rounds@[0]@.len() == 0);
        }
        self.offers.insert(i, offer);
        proof {
            assert(self.offers@ =~= pre_store.offers@.update(i as int, self.offers@[i as int]));
            assert(self.wf());
            self.lemma_offer_index(offer_id@, i as int);
            pre_store.lemma_offer_index(offer_id@, i as int);
            OfferStore::lemma_update_preserves_other_offers(pre_store, *self, i as int, offer_id@);
        }
        Ok(
            OfferContentUpdated {
                offer_id: offer_id.clone(),
                total_price: total,
                total_count: n,
                new_items,
                added_items: added,
                removed_items: removed,
                updated_items: updated,
            },
        )
    }

    /// The check-to-pay guard: compares the claimed final item list,
    /// order-independently and field for field, against the current
    /// (maximum-round) persisted item list of the offer. Equal means
    /// authorized: the persisted list and the counterpart's trade URL come
    /// back with `check_result` true. Anything else — a mismatch or an
    /// unknown offer — is a normal negative result with an empty list and
    /// URL, which the caller must treat as "do not proceed".
    pub fn check_offer_to_pay(
        &self,
        offer_id: &String,
        submitted: &Vec<OfferItem>,
        partner_steam_id: &String,
    ) -> (r: OfferCheckResult)
        requires
            self.wf(),
        ensures
            r.offer_id@ == offer_id@,
            !self.has_offer(offer_id@) ==> !r.check_result && r.offer_items@.len() == 0
                && r.partner_trade_url@.len() == 0,
            self.has_offer(offer_id@) ==> ({
                let current = self.offer_at(offer_id@).current_round();
                &&& r.check_result == items_match(views(submitted@), current)
                &&& r.check_result ==> views(r.offer_items@) == current && r.partner_trade_url@
                    == self.trade_url_of(partner_steam_id@)
                &&& !r.check_result ==> r.offer_items@.len() == 0 && r.partner_trade_url@.len()
                    == 0
            }),
    {
        match self.find_offer(offer_id) {
            None => OfferCheckResult {
                offer_id: offer_id.clone(),
                check_result: false,
                offer_items: Vec::new(),
                partner_trade_url: String::new(),
            },
            Some(i) => {
                let offer = &self.offers[i];
                let last = offer.rounds.len() - 1;
                let current = &offer.rounds[last];
                proof {
                    assert(offer.rounds@.last() == offer.rounds@[last as int]);
                }
                if items_match_exec(submitted, current) {
                    let url = match self.find_trade_url(partner_steam_id) {
                        Some(j) => self.trade_urls[j].1.clone(),
                        None => String::new(),
                    };
                    OfferCheckResult {
                        offer_id: offer_id.clone(),
                        check_result: true,
                        offer_items: clone_items(current),
                        partner_trade_url: url,
                    }
                } else {
                    OfferCheckResult {
                        offer_id: offer_id.clone(),
                        check_result: false,
                        offer_items: Vec::new(),
                        partner_trade_url: String::new(),
                    }
                }
            },
        }
    }

    /// Forgets the trade URL of an account, if one is stored.
    pub fn account_reset_trade_url(&mut self, steam_id: &String)
        requires
            old(self).wf(),
        ensures
            final(self).wf(),
            final(self).offers@ == old(self).offers@,
            !final(self).has_trade_url(steam_id@),
            forall|sid: Seq<char>|
                sid != steam_id@ ==> ((final(self).has_trade_url(sid) <==> old(
                    self,
                ).has_trade_url(sid)) && final(self).trade_url_of(sid) == old(self).trade_url_of(
                    sid,
                )),
    {
        let ghost pre = *self;
        match self.find_trade_url(steam_id) {
            None => {},
            Some(i) => {
                self.trade_urls.remove(i);
                proof {
                    assert forall|k: int|
                        0 <= k < self.trade_urls@.len() implies (#[trigger] self.trade_urls@[k]).0@
                        != steam_id@ by {
                        if k < i as int {
                            assert(self.trade_urls@[k] == pre.trade_urls@[k]);
                            assert(pre.trade_urls@[k].0@ != pre.trade_urls@[i as int].0@);
                        } else {
                            assert(self.trade_urls@[k] == pre.trade_urls@[k + 1]);
                            assert(pre.trade_urls@[k + 1].0@ != pre.trade_urls@[i as int].0@);
                        }
                    }
                    assert(!self.has_trade_url(steam_id@));
                    assert forall|sid: Seq<char>| sid != steam_id@ implies ((self.has_trade_url(
                        sid,
                    ) <==> pre.has_trade_url(sid)) && self.trade_url_of(sid) == pre.trade_url_of(
                        sid,
                    )) by {
                        if pre.has_trade_url(sid) {
                            let j = pre.trade_url_index(sid);
                            assert(pre.trade_urls@[j].0@ == sid);
                            if j < i as int {
                                assert(self.trade_urls@[j] == pre.trade_urls@[j]);
                                self.lemma_trade_url_index(sid, j);
                            } else {
                                assert(j != i as int);
                                assert(self.trade_urls@[j - 1] == pre.trade_urls@[j]);
                                self.lemma_trade_url_index(sid, j - 1);
                            }
                        }
                        if self.has_trade_url(sid) {
                            let j = self.trade_url_index(sid);
                            assert(self.trade_urls@[j].0@ == sid);
                            if j < i as int {
                                assert(pre.trade_urls@[j] == self.trade_urls@[j]);
                                pre.lemma_trade_url_index(sid, j);
                            } else {
                                assert(pre.trade_urls@[j + 1] == self.trade_urls@[j]);
                                pre.lemma_trade_url_index(sid, j + 1);
                            }
                        }
                    }
                }
            },
        }
    }
}

} // verus!
