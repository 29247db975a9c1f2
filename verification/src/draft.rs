//! The draft/handoff layer: a one-shot, durable record linking an authorized
//! offer to the exact item set to transfer, created atomically after a
//! successful check-to-pay and consumed by the client-side trade flow.

use vstd::prelude::*;

use crate::items::{views, ItemView, OfferItem};
use crate::offer::{items_match_holds, u32_of_dec, OfferStore};

verus! {

use vstd::string::StringExecFns;

/// One item the draft commits to give.
pub struct DraftItem {
    pub appid: u32,
    pub contextid: String,
    pub assetid: String,
    pub amount: u32,
}

/// The mathematical value of a draft item.
#[verifier::ext_equal]
pub struct DraftItemView {
    pub appid: u32,
    pub contextid: Seq<char>,
    pub assetid: Seq<char>,
    pub amount: u32,
}

impl View for DraftItem {
    type V = DraftItemView;

    open spec fn view(&self) -> DraftItemView {
        DraftItemView {
            appid: self.appid,
            contextid: self.contextid@,
            assetid: self.assetid@,
            amount: self.amount,
        }
    }
}

/// The draft item an authorized ledger item maps to, meaningful when its
/// `app_id` parses as a decimal number.
pub open spec fn draft_item_of(it: ItemView) -> DraftItemView {
    DraftItemView {
        appid: u32_of_dec(it.app_id).unwrap(),
        contextid: it.context_id,
        assetid: it.asset_id,
        amount: 1,
    }
}

/// A persisted draft: header and give-items, written as one unit and
/// immutable afterwards.
pub struct OfferDraft {
    pub draft_id: String,
    pub offer_id: String,
    pub partner_trade_url: String,
    pub autosend: bool,
    pub created_at: u64,
    pub give_items: Vec<DraftItem>,
}

/// Why the draft layer refused an operation.
#[derive(Clone, Copy, Debug, PartialEq, Eq, Structural)]
pub enum DraftError {
    /// The proposed draft id is already taken.
    DraftIdTaken,
    /// No draft with the given id exists.
    DraftNotFound,
}

/// The persistence of drafts. A draft's header and items live in one record,
/// so a creation either persists all of it or none of it.
pub struct DraftStore {
    pub drafts: Vec<OfferDraft>,
}

impl DraftStore {
    pub open spec fn wf(self) -> bool {
        forall|i: int, j: int|
            0 <= i < self.drafts@.len() && 0 <= j < self.drafts@.len() && i != j
                ==> (#[trigger] self.drafts@[i]).draft_id@ != (#[trigger] self.drafts@[j]).draft_id@
    }

    pub open spec fn has_draft(self, did: Seq<char>) -> bool {
        exists|i: int| 0 <= i < self.drafts@.len() && (#[trigger] self.drafts@[i]).draft_id@ == did
    }

    pub open spec fn draft_index(self, did: Seq<char>) -> int {
        choose|i: int| 0 <= i < self.drafts@.len() && (#[trigger] self.drafts@[i]).draft_id@ == did
    }

    pub open spec fn draft_at(self, did: Seq<char>) -> OfferDraft {
        self.drafts@[self.draft_index(did)]
    }

    pub proof fn lemma_draft_index(self, did: Seq<char>, i: int)
        requires
            self.wf(),
            0 <= i < self.drafts@.len(),
            self.drafts@[i].draft_id@ == did,
        ensures
            self.has_draft(did),
            self.draft_index(did) == i,
    {
        assert(self.has_draft(did));
        let j = self.draft_index(did);
        if i != j {
            assert(self.drafts@[i].draft_id@ != self.drafts@[j].draft_id@);
        }
    }

    pub fn new() -> (r: Self)
        ensures
            r.wf(),
            r.drafts@.len() == 0,
    {
        DraftStore { drafts: Vec::new() }
    }

    fn find_draft(&self, draft_id: &String) -> (r: Option<usize>)
        requires
            self.wf(),
        ensures
            r is Some <==> self.has_draft(draft_id@),
            r is Some ==> {
                let i = r.unwrap() as int;
                &&& 0 <= i < self.drafts@.len()
                &&& self.drafts@[i].draft_id@ == draft_id@
                &&& i == self.draft_index(draft_id@)
            },
    {
        let n = self.drafts.len();
        let mut i: usize = 0;
        while i < n
            invariant
                self.wf(),
                n == self.drafts@.len(),
                0 <= i <= n,
                forall|k: int| 0 <= k < i ==> (#[trigger] self.drafts@[k]).draft_id@ != draft_id@,
            decreases n - i,
        {
            if self.drafts[i].draft_id == *draft_id {
                proof {
                    self.lemma_draft_index(draft_id@, i as int);
                }
                return Some(i);
            }
            i = i + 1;
        }
        assert(!self.has_draft(draft_id@));
        None
    }

    /// Persists the draft header and its give-items as one atomic unit: on
    /// success the whole record is appended, and a refused creation leaves
    /// the store exactly as it was — no headerless or itemless draft can
    /// exist.
    pub fn create_draft(
        &mut self,
        draft_id: String,
        offer_id: String,
        partner_trade_url: String,
        autosend: bool,
        give_items: Vec<DraftItem>,
        now: u64,
    ) -> (r: Result<(), DraftError>)
        requires
            old(self).wf(),
        ensures
            final(self).wf(),
            r is Err ==> (r matches Err(DraftError::DraftIdTaken)) && old(self).has_draft(
                draft_id@,
            ) && final(self).drafts@ == old(self).drafts@,
            r is Ok ==> !old(self).has_draft(draft_id@) && final(self).drafts@ == old(
                self,
            ).drafts@.push(
                (OfferDraft {
                    draft_id,
                    offer_id,
                    partner_trade_url,
                    autosend,
                    created_at: now,
                    give_items,
                }),
            ),
    {
        if self.find_draft(&draft_id).is_some() {
            return Err(DraftError::DraftIdTaken);
        }
        let ghost pre = *self;
        let ghost n = self.drafts@.len() as int;
        self.drafts.push(
            OfferDraft { draft_id, offer_id, partner_trade_url, autosend, created_at: now, give_items },
        );
        proof {
            assert forall|a: int, b: int|
                0 <= a < self.drafts@.len() && 0 <= b < self.drafts@.len() && a != b
                    implies (#[trigger] self.drafts@[a]).draft_id@ != (
            #[trigger] self.drafts@[b]).draft_id@ by {
                if a < n && b < n {
                } else if a < n {
                    assert(pre.drafts@[a].draft_id@ != self.drafts@[n].draft_id@);
                } else if b < n {
                    assert(pre.drafts@[b].draft_id@ != self.drafts@[n].draft_id@);
                }
            }
        }
        Ok(())
    }

    /// The persisted give-items and flags of a draft, or a not-found error.
    /// Drafts are immutable once created, and this reads through `&self`, so
    /// repeated fetches of one id always return the same record.
    pub fn get_draft(&self, draft_id: &String) -> (r: Result<&OfferDraft, DraftError>)
        requires
            self.wf(),
        ensures
            self.has_draft(draft_id@) ==> (r matches Ok(d) && *d == self.draft_at(draft_id@)),
            !self.has_draft(draft_id@) ==> (r matches Err(DraftError::DraftNotFound)),
    {
        match self.find_draft(draft_id) {
            Some(i) => Ok(&self.drafts[i]),
            None => Err(DraftError::DraftNotFound),
        }
    }
}

/// Draft creation is atomic. A draft's header and give-items live in one
/// record, so an interruption between writing the header and writing the
/// items is unrepresentable — no headerless or itemless draft can ever be
/// fetched. A refused creation changes nothing: a draft id that was not
/// fetchable before the failed attempt still reports not-found after it, and
/// every stored draft reads exactly as before.
pub proof fn lemma_failed_create_atomic(pre: DraftStore, post: DraftStore, did: Seq<char>)
    requires
        post.drafts@ == pre.drafts@,
    ensures
        post.has_draft(did) == pre.has_draft(did),
        pre.has_draft(did) ==> post.draft_at(did) == pre.draft_at(did),
{
}

/// Why the combined check-to-pay/draft step failed outright — distinct from
/// a normal negative check result.
#[derive(Clone, Copy, Debug, PartialEq, Eq, Structural)]
pub enum CheckToPayError {
    /// An authorized item's `app_id` is not a decimal number.
    BadAppId,
    /// The proposed draft id is already taken.
    DraftIdTaken,
}

/// What the combined check-to-pay/draft step hands the caller.
pub enum CheckToPayOutcome {
    /// The claimed list does not match the ledger: do not proceed.
    Rejected { offer_id: String },
    /// The claim matched; the draft is persisted and the redirect reference
    /// built.
    Authorized { offer_id: String, draft_id: String, steam_url: String },
}

/// Runs the check-to-pay guard and, only when the claimed list matches the
/// ledger, persists the draft for the authorized items and builds the
/// redirect reference carrying the draft id. A mismatch is a normal negative
/// outcome; a non-decimal `app_id` or a taken draft id aborts the whole step
/// with the draft store untouched.
pub fn check_offer_to_pay_and_draft(
    offers: &OfferStore,
    drafts: &mut DraftStore,
    offer_id: &String,
    submitted: &Vec<OfferItem>,
    partner_steam_id: &String,
    draft_id: String,
    autosend: bool,
    now: u64,
) -> (r: Result<CheckToPayOutcome, CheckToPayError>)
    requires
        offers.wf(),
        old(drafts).wf(),
    ensures
        final(drafts).wf(),
        !items_match_holds(*offers, offer_id@, views(submitted@)) ==> (r matches Ok(
            CheckToPayOutcome::Rejected { offer_id: oid },
        ) && oid@ == offer_id@) && final(drafts).drafts@ == old(drafts).drafts@,
        items_match_holds(*offers, offer_id@, views(submitted@)) ==> ({
            let current = offers.offer_at(offer_id@).current_round();
            let url = offers.trade_url_of(partner_steam_id@);
            if exists|k: int| 0 <= k < current.len() && u32_of_dec((#[trigger] current[k]).app_id) is None {
                (r matches Err(CheckToPayError::BadAppId)) && final(drafts).drafts@ == old(
                    drafts,
                ).drafts@
            } else if old(drafts).has_draft(draft_id@) {
                (r matches Err(CheckToPayError::DraftIdTaken)) && final(drafts).drafts@ == old(
                    drafts,
                ).drafts@
            } else {
                &&& r matches Ok(
                    CheckToPayOutcome::Authorized { offer_id: oid, draft_id: did, steam_url },
                ) && oid@ == offer_id@ && did@ == draft_id@ && steam_url@ == url + "&tastyrock="@
                    + draft_id@
                &&& final(drafts).drafts@.len() == old(drafts).drafts@.len() + 1
                &&& final(drafts).drafts@.drop_last() == old(drafts).drafts@
                &&& ({
                    let d = final(drafts).drafts@.last();
                    &&& d.draft_id@ == draft_id@
                    &&& d.offer_id@ == offer_id@
                    &&& d.partner_trade_url@ == url
                    &&& d.autosend == autosend
                    &&& d.created_at == now
                    &&& d.give_items@.len() == current.len()
                    &&& forall|k: int|
                        0 <= k < current.len() ==> (#[trigger] d.give_items@[k])@
                            == draft_item_of(current[k])
                })
            }
        }),
{
    let chk = offers.check_offer_to_pay(offer_id, submitted, partner_steam_id);
    if !chk.check_result {
        return Ok(CheckToPayOutcome::Rejected { offer_id: chk.offer_id });
    }
    let ghost current = offers.offer_at(offer_id@).current_round();

    // Map every authorized ledger item to the draft item to give.
    let mut give: Vec<DraftItem> = Vec::new();
    let n = chk.offer_items.len();
    let mut i: usize = 0;
    while i < n
        invariant
            n == chk.offer_items@.len(),
            0 <= i <= n,
            drafts.wf(),
            drafts.drafts@ == old(drafts).drafts@,
            offers.wf(),
            items_match_holds(*offers, offer_id@, views(submitted@)),
            current == offers.offer_at(offer_id@).current_round(),
            current == views(chk.offer_items@),
            give@.len() == i,
            forall|k: int|
                0 <= k < i ==> u32_of_dec((#[trigger] current[k]).app_id) is Some && give@[k]@
                    == draft_item_of(current[k]),
        decreases n - i,
    {
        proof {
            assert(current[i as int] == chk.offer_items@[i as int]@);
        }
        let it = &chk.offer_items[i];
        let appid = match crate::offer::parse_u32(it.app_id.as_str()) {
            Some(a) => a,
            None => {
                proof {
                    assert(items_match_holds(*offers, offer_id@, views(submitted@)));
                    assert(u32_of_dec(current[i as int].app_id) is None);
                }
                return Err(CheckToPayError::BadAppId);
            },
        };
        give.push(
            DraftItem {
                appid,
                contextid: it.context_id.clone(),
                assetid: it.asset_id.clone(),
                amount: 1,
            },
        );
        i = i + 1;
    }

    let url = chk.partner_trade_url;
    match drafts.create_draft(
        draft_id.clone(),
        offer_id.clone(),
        url.clone(),
        autosend,
        give,
        now,
    ) {
        Err(_) => Err(CheckToPayError::DraftIdTaken),
        Ok(()) => {
            let mut steam_url = url;
            steam_url.append("&tastyrock=");
            steam_url.append(draft_id.as_str());
            Ok(
                CheckToPayOutcome::Authorized {
                    offer_id: offer_id.clone(),
                    draft_id,
                    steam_url,
                },
            )
        },
    }
}

} // verus!
