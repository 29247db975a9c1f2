//! The trusted boundary of the coordinator: whitespace trimming from std and
//! the JSON probe that the hub applies to `offer_items` announcements.

use vstd::prelude::*;

verus! {

/// What `str::trim` returns for a given text.
pub uninterp spec fn trim_of(s: Seq<char>) -> Seq<char>;

/// Relies on `str::trim`: removes leading and trailing whitespace, so the
/// result depends on the input alone and is never longer than it.
#[verifier::external_body]
pub(crate) fn trim_text(s: &str) -> (r: String)
    ensures
        r@ == trim_of(s@),
        r@.len() <= s@.len(),
{
    s.trim().to_owned()
}

/// The `items` field of an `offer_items` announcement, re-encoded as JSON
/// text; `None` when the announcement is not JSON or lacks an `items` key.
pub uninterp spec fn items_field(s: Seq<char>) -> Option<Seq<char>>;

/// Relies on `serde_json::from_str`, `serde_json::Value::get` and `Value`'s
/// `Display`: parses the announcement and hands its `items` field back
/// re-encoded. All three depend on the text alone.
#[verifier::external_body]
pub(crate) fn extract_items_field(s: &str) -> (r: Option<String>)
    ensures
        r is Some <==> items_field(s@) is Some,
        r is Some ==> r.unwrap()@ == items_field(s@).unwrap(),
{
    let parsed: Option<serde_json::Value> = serde_json::from_str(s).ok();
    match parsed {
        Some(v) => v.get("items").map(|items| items.to_string()),
        None => None,
    }
}

} // verus!
