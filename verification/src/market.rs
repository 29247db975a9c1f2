//! The market-feed side of the project: the request and response shapes of
//! the listing ingestion, the persisted feed rows, user ad cards, and the
//! parameter defaulting the request builders apply. The HTTP calls
//! themselves live outside this crate.

use vstd::prelude::*;

verus! {

/// How market search results are ordered.
#[derive(Clone, Copy)]
pub enum Sort {
    Name,
    Price,
    Quantity,
    Popular,
}

#[derive(Clone, Copy)]
pub enum SortDirection {
    Asc,
    Desc,
}

/// A logged-in Steam account as the session stores it.
#[derive(Debug)]
pub struct SteamUser {
    pub steamid: String,
    pub nickname: String,
    pub avatar_url_small: String,
    pub avatar_url_full: String,
}

/// One advertised user profile card.
#[derive(Debug)]
pub struct UserProfileAds {
    pub steamid: String,
    pub name: String,
    pub image: String,
}

/// The rotating queue of advertised profiles.
#[derive(Debug)]
pub struct UserAdsQueue {
    pub queue: std::collections::VecDeque<UserProfileAds>,
}

impl UserAdsQueue {
    /// One step of the ad rotation: the front card moves to the back; an
    /// empty queue stays empty.
    pub fn rotate(&mut self)
        ensures
            old(self).queue@.len() == 0 ==> final(self).queue@ == old(self).queue@,
            old(self).queue@.len() > 0 ==> final(self).queue@ == old(self).queue@.drop_first().push(
                old(self).queue@[0],
            ),
    {
        match self.queue.pop_front() {
            Some(front) => {
                self.queue.push_back(front);
            },
            None => {},
        }
    }
}

/// The query parameters of one market search request.
#[derive(Debug)]
pub struct MarketRequest {
    pub game: u32,
    pub page: u32,
    pub count: u32,
    pub query: String,
    pub sort: String,
    pub sort_dir: String,
    pub search_descriptions: bool,
    pub price_min: u32,
    pub price_max: u32,
}

/// The wire label of a sort order; an omitted sort is the empty label.
pub open spec fn sort_label(s: Option<Sort>) -> Seq<char> {
    match s {
        Some(Sort::Name) => "name"@,
        Some(Sort::Popular) => "popular"@,
        Some(Sort::Quantity) => "quantity"@,
        Some(Sort::Price) => "price"@,
        None => ""@,
    }
}

pub open spec fn sort_dir_label(s: Option<SortDirection>) -> Seq<char> {
    match s {
        Some(SortDirection::Asc) => "asc"@,
        Some(SortDirection::Desc) => "desc"@,
        None => ""@,
    }
}

impl MarketRequest {
    /// Fills the search parameters, defaulting every omitted one, and
    /// converting the price bounds to minor units; an omitted upper bound
    /// means no bound.
    pub fn request_paramenters(
        game: Option<u32>,
        count: Option<u32>,
        page: Option<u32>,
        query: Option<String>,
        sort: Option<Sort>,
        sort_dir: Option<SortDirection>,
        search_descriptions: Option<bool>,
        price_min: Option<u32>,
        price_max: Option<u32>,
    ) -> (r: MarketRequest)
        requires
            price_min matches Some(p) ==> p <= u32::MAX / 100,
            price_max matches Some(p) ==> p <= u32::MAX / 100,
        ensures
            r.game == (match game {
                Some(g) => g,
                None => 730u32,
            }),
            r.count == (match count {
                Some(c) => c,
                None => 10u32,
            }),
            r.page == (match page {
                Some(p) => p,
                None => 0u32,
            }),
            r.query@ == (match query {
                Some(q) => q@,
                None => ""@,
            }),
            r.sort@ == sort_label(sort),
            r.sort_dir@ == sort_dir_label(sort_dir),
            r.search_descriptions == (match search_descriptions {
                Some(b) => b,
                None => false,
            }),
            r.price_min == (match price_min {
                Some(p) => p * 100,
                None => 0int,
            }),
            r.price_max == (match price_max {
                Some(p) => p * 100,
                None => u32::MAX as int,
            }),
    {
        let game = match game {
            Some(appid) => appid,
            None => 730,
        };
        let count = match count {
            Some(count) => count,
            None => 10,
        };
        let page = match page {
            Some(page) => page,
            None => 0,
        };
        let query = match query {
            Some(query) => query,
            None => "".to_owned(),
        };
        let sort = match sort {
            Some(sort) => match sort {
                Sort::Name => "name".to_owned(),
                Sort::Popular => "popular".to_owned(),
                Sort::Quantity => "quantity".to_owned(),
                Sort::Price => "price".to_owned(),
            },
            None => "".to_owned(),
        };
        let sort_dir = match sort_dir {
            Some(dir) => match dir {
                SortDirection::Asc => "asc".to_owned(),
                SortDirection::Desc => "desc".to_owned(),
            },
            None => "".to_owned(),
        };
        let search_descriptions = match search_descriptions {
            Some(b) => b,
            None => false,
        };
        let price_min = match price_min {
            Some(price) => price * 100,
            None => 0,
        };
        let price_max = match price_max {
            Some(price) => price * 100,
            None => u32::MAX,
        };
        MarketRequest {
            game,
            page,
            count,
            query,
            sort,
            sort_dir,
            search_descriptions,
            price_min,
            price_max,
        }
    }
}

/// The query parameters of the recent-listings poll.
#[derive(Debug)]
pub struct MostRecentItemsRequest {
    pub country: String,
    pub language: String,
    pub currency: String,
}

impl MostRecentItemsRequest {
    /// Fills the poll parameters, defaulting every omitted one.
    pub fn request_paramenters(
        country: Option<String>,
        language: Option<String>,
        currency: Option<String>,
    ) -> (r: MostRecentItemsRequest)
        ensures
            r.country@ == (match country {
                Some(c) => c@,
                None => "US"@,
            }),
            r.language@ == (match language {
                Some(l) => l@,
                None => "english"@,
            }),
            r.currency@ == (match currency {
                Some(c) => c@,
                None => "3"@,
            }),
    {
        let country = match country {
            Some(country) => country,
            None => "US".to_owned(),
        };
        let language = match language {
            Some(language) => language,
            None => "english".to_owned(),
        };
        let currency = match currency {
            Some(currency) => currency,
            None => "3".to_owned(),
        };
        MostRecentItemsRequest { country, language, currency }
    }
}

/// The feed filters a user picked.
#[derive(Debug)]
pub struct MostRecentItemsFilter {
    pub appid: String,
    pub price_min: String,
    pub price_max: String,
    pub query: String,
}

/// The raw filter input of the filter form.
#[derive(Debug)]
pub struct FilterInput {
    pub appid: String,
    pub price_min: String,
    pub price_max: String,
    pub query: String,
}

impl Default for FilterInput {
    /// The filters a session without stored ones renders with.
    fn default() -> (r: FilterInput)
        ensures
            r.appid@ == "Steam"@,
            r.price_min@ == "0"@,
            r.price_max@ == "999999"@,
            r.query@ == ""@,
    {
        FilterInput {
            appid: "Steam".to_owned(),
            price_min: "0".to_owned(),
            price_max: "999999".to_owned(),
            query: "".to_owned(),
        }
    }
}

impl MostRecentItemsFilter {
    /// The item filters a filter form submission carries.
    pub fn from_input(input: &FilterInput) -> (r: MostRecentItemsFilter)
        ensures
            r.appid@ == input.appid@,
            r.price_min@ == input.price_min@,
            r.price_max@ == input.price_max@,
            r.query@ == input.query@,
    {
        MostRecentItemsFilter {
            appid: input.appid.clone(),
            price_min: input.price_min.clone(),
            price_max: input.price_max.clone(),
            query: input.query.clone(),
        }
    }
}

/// Marker for the response shapes a market request may deserialize into.
pub trait SteamRequest {

}

/// One asset reference inside a listing.
#[derive(Debug)]
pub struct ListinginfoAsset {
    pub currency: usize,
    pub appid: usize,
    pub contextid: String,
    pub id: String,
    pub amount: String,
}

/// One asset description of the recent-listings response.
#[derive(Debug)]
pub struct Assets {
    pub currency: usize,
    pub appid: usize,
    pub contextid: String,
    pub id: String,
    pub classid: String,
    pub instanceid: String,
    pub amount: String,
    pub status: usize,
    pub original_amount: String,
    pub unowned_id: Option<String>,
    pub unowned_contextid: Option<String>,
    pub background_color: Option<String>,
    pub icon_url: Option<String>,
    pub icon_url_large: Option<String>,
    pub descriptions: Option<Vec<AssetDescription>>,
    pub tradable: Option<usize>,
    pub owner_actions: Option<Vec<OwnerActions>>,
    pub name: Option<String>,
    pub name_color: Option<String>,
    pub market_name: Option<String>,
    pub market_hash_name: Option<String>,
    pub market_fee_app: Option<isize>,
    pub commodity: Option<isize>,
    pub market_tradable_restriction: Option<isize>,
    pub market_marketable_restriction: Option<isize>,
    pub marketable: Option<usize>,
    pub app_icon: Option<String>,
    pub owner: Option<isize>,
}

#[derive(Debug)]
pub struct OwnerActions {
    pub link: Option<String>,
    pub name: Option<String>,
}

#[derive(Debug)]
pub struct AssetDescription {
    pub value: Option<String>,
    pub color: Option<String>,
}

#[derive(Debug)]
pub struct Purchaseinfo {

}

#[derive(Debug)]
pub struct Currency {

}

/// The app a listing belongs to.
#[derive(Debug)]
pub struct AppData {
    pub appid: usize,
    pub name: String,
    pub icon: String,
    pub link: String,
}

/// One market item of a search response.
#[derive(Debug)]
pub struct Item {
    pub name: String,
    pub hash_name: String,
    pub sell_listings: u32,
    pub sell_price: u32,
    pub sell_price_text: String,
    pub app_icon: String,
    pub app_name: String,
    pub asset_description: Description,
    pub sale_price_text: String,
}

#[derive(Debug)]
pub struct Description {
    pub appid: u32,
    pub classid: String,
    pub instanceid: String,
    pub background_color: Option<String>,
    pub icon_url: String,
    pub tradable: usize,
    pub name: String,
    pub name_color: Option<String>,
    pub item_type: String,
    pub market_name: String,
    pub market_hash_name: String,
    pub commodity: u32,
}

/// The items of a custom search.
#[derive(Debug)]
pub struct CustomItems {
    pub vec: Vec<Item>,
}

/// One persisted feed row.
#[derive(Debug)]
pub struct MostRecent {
    pub id: usize,
    pub listinginfo_id: String,
    pub name: String,
    pub price: String,
    pub appid: String,
    pub game: String,
    pub market_hash_name: String,
    pub tradable: String,
    pub icon: String,
    pub game_icon: String,
}

/// The persisted filter set of an account.
#[derive(Debug)]
pub struct DBFiltersMostRecentItems {
    pub filters: String,
}

/// What an invoice creation hands back to the client.
#[derive(Debug)]
pub struct CreateInvoiceResp {
    pub invoice_id: String,
    pub status: String,
    pub checkout_link: String,
}

/// The polled status of an invoice.
#[derive(Debug)]
pub struct StatusResp {
    pub status: String,
}

/// One payment webhook notification.
#[derive(Debug)]
pub struct WebhookEvent {
    pub invoice_id: String,
    pub event_type: String,
}

/// A checkout request for one offer.
#[derive(Debug)]
pub struct CreateCheckoutReq {
    pub offer_id: String,
}

/// The query of the payment return pages.
#[derive(Debug)]
pub struct StripeReturn {
    pub session_id: String,
}

/// The query of the payment-provider account linking callback.
#[derive(Debug)]
pub struct ConnectCallbackQuery {
    pub code: String,
    pub state: Option<String>,
}

} // verus!
