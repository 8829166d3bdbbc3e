//! Page locator: derives the URL of a listing page from its page number.
//!
//! The base path and the fixed filter and page-size query parameters are kept
//! byte for byte on every page, so row layout and column semantics are stable
//! across requests. Page one is the site's default, unparameterized view; for
//! a later page the page-number parameter is appended.

use vstd::prelude::*;
use crate::text::dec_rep;
use crate::text::u32_to_dec;

verus! {

/// Base path of the validator listing table.
pub open spec fn spec_base_url() -> Seq<char> {
    "https://dora.explorer.mainnet.lukso.network/validators/included_deposits"@
}

/// Fixed filter and page-size query parameters, kept identical on every page.
pub open spec fn spec_base_params() -> Seq<char> {
    "f=&f.valid=1&f.orphaned=1&c=100"@
}

/// URL of page one: the base path with only the fixed parameters.
pub open spec fn spec_first_page_url() -> Seq<char> {
    spec_base_url() + "?"@ + spec_base_params()
}

/// URL of a listing page: page one omits the page-number parameter, every
/// later page appends `&p=<page>` after the fixed parameters.
pub open spec fn spec_page_url(page: u32) -> Seq<char> {
    if page == 1 {
        spec_first_page_url()
    } else {
        spec_first_page_url() + "&p="@ + dec_rep(page as nat)
    }
}

/// Base path of the validator listing table.
pub fn base_url_str() -> (r: &'static str)
    ensures
        r@ == spec_base_url(),
{
    "https://dora.explorer.mainnet.lukso.network/validators/included_deposits"
}

/// Builds the URL for a given page.
pub fn page_url(page: u32) -> (r: String)
    requires
        1 <= page,
    ensures
        r@ == spec_page_url(page),
{
    let mut r = String::from_str(base_url_str());
    r.append("?");
    r.append("f=&f.valid=1&f.orphaned=1&c=100");
    if page != 1 {
        r.append("&p=");
        let digits = u32_to_dec(page);
        r.append(digits.as_str());
    }
    r
}

} // verus!
